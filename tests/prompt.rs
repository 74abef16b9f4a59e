use std::collections::HashMap;

use aio_markdown::prompt::{CustomTemplate, Message, PromptTemplate, Role, Stop};
use aio_markdown::template::{format_content, placeholder_names, substitute};

#[test]
fn role_names() {
    assert_eq!(Role::User.lowercase(), "user");
    assert_eq!(Role::Assistant.lowercase(), "assistant");
    assert_eq!(Role::System.lowercase(), "system");
}

#[test]
fn template_names() {
    assert_eq!(PromptTemplate::ChatML.name(), "chatml");
    assert_eq!(PromptTemplate::Llama2.name(), "llama2");
    assert_eq!(PromptTemplate::Llama3.name(), "llama3");
}

fn custom(user_prefix: &str) -> PromptTemplate {
    PromptTemplate::Custom(CustomTemplate {
        system_prefix: String::new(),
        system_suffix: String::new(),
        user_prefix: user_prefix.to_string(),
        user_suffix: String::new(),
        assistant_prefix: String::new(),
        assistant_suffix: String::new(),
    })
}

#[test]
fn template_stop_tokens() {
    let mut m = PromptTemplate::ChatML.stop_tokens("</s>");
    assert!(!m.check("<|im_"));
    assert!(m.check("end|>"));
    assert!(m.check("</s>"));
    let mut m = PromptTemplate::Llama3.stop_tokens("");
    assert!(m.check("<|eot_id|>"));
    let mut m = custom("USER:").stop_tokens("<eos>");
    assert_eq!(custom("x").name(), "custom");
    assert!(m.check("USER:"));
    let mut m = custom("").stop_tokens("");
    assert!(!m.check("anything"));
}

#[test]
fn stop_kinds() {
    assert!(Stop::Unset.is_none());
    assert!(!Stop::One("x".to_string()).is_none());
    assert!(!Stop::Many(vec![]).is_none());
}

#[test]
fn message_content_may_be_absent() {
    let m = Message { role: Role::Assistant, content: None };
    let e = Message { role: Role::Assistant, content: Some(String::new()) };
    assert!(m.content.is_none());
    assert_eq!(e.content.as_deref(), Some(""));
}

fn pieces(t: &PromptTemplate, msgs: &[Message]) -> Vec<(String, bool)> {
    t.layout(msgs).into_iter().map(|p| (p.text, p.special)).collect()
}

fn sp(s: &str) -> (String, bool) {
    (s.to_string(), true)
}

fn pl(s: &str) -> (String, bool) {
    (s.to_string(), false)
}

fn conversation() -> Vec<Message> {
    vec![
        Message { role: Role::System, content: Some("Be brief.".to_string()) },
        Message { role: Role::User, content: Some("Hi".to_string()) },
        Message { role: Role::User, content: None },
        Message { role: Role::Assistant, content: None },
    ]
}

#[test]
fn chatml_layout() {
    assert_eq!(
        pieces(&PromptTemplate::ChatML, &conversation()),
        vec![
            sp("<|im_start|>"), sp("system"), sp("\n"), pl("Be brief."), sp("<|im_end|>"), sp("\n"),
            sp("<|im_start|>"), sp("user"), sp("\n"), pl("Hi"), sp("<|im_end|>"), sp("\n"),
            sp("<|im_start|>"), sp("assistant"), sp("\n"),
        ]
    );
}

#[test]
fn llama2_layout() {
    let mut msgs = conversation();
    msgs.push(Message { role: Role::Assistant, content: Some("Hello".to_string()) });
    assert_eq!(
        pieces(&PromptTemplate::Llama2, &msgs),
        vec![
            sp("[INST]"), sp("<<SYS>>"), pl("Be brief."), sp("<</SYS>>"), sp("[/INST]"), sp("\n"),
            sp("[INST]"), pl("Hi"), sp("[/INST]"), sp("\n"),
            pl("Hello"), sp("</s>"), sp("\n"),
        ]
    );
}

#[test]
fn llama3_layout() {
    assert_eq!(
        pieces(&PromptTemplate::Llama3, &conversation()[1..]),
        vec![
            sp("<|start_header_id|>"), sp("user"), sp("<|end_header_id|>"), sp("\n"), sp("\n"),
            pl("Hi"), sp("<|eot_id|>"),
            sp("<|start_header_id|>"), sp("assistant"), sp("<|end_header_id|>"), sp("\n"), sp("\n"),
        ]
    );
}

#[test]
fn custom_layout() {
    let t = PromptTemplate::Custom(CustomTemplate {
        system_prefix: "S:".to_string(),
        system_suffix: ";".to_string(),
        user_prefix: "U:".to_string(),
        user_suffix: ";".to_string(),
        assistant_prefix: "A:".to_string(),
        assistant_suffix: ".".to_string(),
    });
    assert_eq!(
        pieces(&t, &conversation()),
        vec![sp("S:"), pl("Be brief."), sp(";"), sp("U:"), pl("Hi"), sp(";"), sp("A:")]
    );
}

fn args(pairs: &[(&str, &str)]) -> HashMap<String, String> {
    pairs.iter().map(|(k, v)| (k.to_string(), v.to_string())).collect()
}

#[test]
fn format_content_fills_placeholders() {
    let a = args(&[("input", "list files"), ("x", "1")]);
    assert_eq!(format_content("Do: $input.", &a), "Do: list files.");
    assert_eq!(format_content("$$input costs $x$", &a), "$input costs 1$");
    assert_eq!(format_content("$missing!", &a), "!");
    assert_eq!(format_content("$$ and $ alone", &a), "$$ and $ alone");
    assert_eq!(format_content("$$$x", &a), "$$x");
    assert_eq!(format_content("é$xé", &args(&[("xé", "v")])), "év");
}

#[test]
fn substitute_and_names() {
    assert_eq!(placeholder_names("a $b $$c $d_e!"), vec!["b".to_string(), "d_e".to_string()]);
    assert_eq!(substitute("a $b $$c $d_e!", &["1".to_string()]), "a 1 $c !");
}

#[test]
fn message_format_content() {
    let a = args(&[("input", "hi")]);
    let m = Message { role: Role::User, content: Some("say $input".to_string()) }.format_content(&a);
    assert_eq!(m.content.as_deref(), Some("say hi"));
    assert_eq!(m.role, Role::User);
    let mut m = Message { role: Role::Assistant, content: None };
    m.format_content_as_ref(&a);
    assert!(m.content.is_none());
}
