use aio_markdown::runner::{RunChoice, Runner};
use aio_markdown::utils::{alternate_config_path, append_to_vec, config_path, resolve_path, SplitBytes, SplitBytesFactory};

#[test]
fn runner_collects_code_blocks() {
    let mut r = Runner::new(RunChoice::Ask);
    r.push("text\n```python \nprint(1)\nx = 2\n```\nafter\n```\nls\n```\n");
    let blocks = r.code_blocks();
    assert_eq!(blocks.len(), 2);
    assert_eq!(blocks[0].language.as_deref(), Some("python"));
    assert_eq!(blocks[0].code, "print(1)\nx = 2");
    assert_eq!(blocks[1].language, None);
    assert_eq!(blocks[1].code, "ls");
    assert_eq!(r.run_choice(), RunChoice::Ask);
}

#[test]
fn runner_fragments_cut_anywhere() {
    let text = "a\n```sh\necho hi\n```\n";
    let mut r = Runner::new(RunChoice::No);
    for c in text.chars() {
        r.push(&c.to_string());
    }
    let blocks = r.code_blocks();
    assert_eq!(blocks.len(), 1);
    assert_eq!(blocks[0].language.as_deref(), Some("sh"));
    assert_eq!(blocks[0].code, "echo hi");
}

#[test]
fn runner_ignores_fences_mid_line() {
    let mut r = Runner::new(RunChoice::Force);
    r.push("see ```rust\nno block\n");
    assert!(r.code_blocks().is_empty());
}

#[test]
fn append_to_vec_keeps_order() {
    let mut v = vec![1u8, 2];
    append_to_vec(&mut v, &[3, 4]);
    assert_eq!(v, vec![1, 2, 3, 4]);
    append_to_vec(&mut v, &[]);
    assert_eq!(v, vec![1, 2, 3, 4]);
}

fn pieces(mut it: SplitBytes) -> Vec<Vec<u8>> {
    let mut v = Vec::new();
    while let Some(p) = it.next() {
        v.push(p);
    }
    v
}

#[test]
fn split_bytes_keeps_what_follows_the_last_separator() {
    let mut f = SplitBytesFactory::new(b"\n\n".to_vec());
    assert_eq!(pieces(f.new_iter(b"a\n\nb\n\nc")), vec![b"a".to_vec(), b"b".to_vec()]);
    assert_eq!(pieces(f.new_iter(b"d\n\n")), vec![b"cd".to_vec()]);
    assert_eq!(pieces(f.new_iter(b"xyz")), Vec::<Vec<u8>>::new());
    assert_eq!(pieces(f.new_iter(b"\n\n")), vec![b"xyz".to_vec()]);
}

#[test]
fn split_bytes_stops_at_an_empty_piece() {
    let it = SplitBytes::new(b"a,,b".to_vec(), b",".to_vec());
    assert_eq!(pieces(it), vec![b"a".to_vec()]);
    let it = SplitBytes::new(b"a,b,".to_vec(), b",".to_vec());
    assert_eq!(pieces(it), vec![b"a".to_vec(), b"b".to_vec()]);
}

#[test]
fn resolve_path_expands_home() {
    assert_eq!(resolve_path("~/notes.md", "/home/me", '/'), "/home/me/notes.md");
    assert_eq!(resolve_path("notes.md", "/home/me", '/'), "notes.md");
    assert_eq!(resolve_path("~notes", "/home/me", '/'), "~notes");
    assert_eq!(resolve_path("~/", "C:\\Users\\me", '\\'), "C:\\Users\\me\\");
}

#[test]
fn runner_keeps_backticks_inside_code() {
    let mut r = Runner::new(RunChoice::No);
    r.push("```bash\necho `date`\n``x\nls ```\n```\n");
    let blocks = r.code_blocks();
    assert_eq!(blocks.len(), 1);
    assert_eq!(blocks[0].language.as_deref(), Some("bash"));
    assert_eq!(blocks[0].code, "echo `date`\n``x\nls ```");
}

#[test]
fn runner_trims_the_language() {
    let mut r = Runner::new(RunChoice::No);
    r.push("```\u{3000} rust\t\nfn main() {}\n```\n");
    assert_eq!(r.code_blocks()[0].language.as_deref(), Some("rust"));
}

#[test]
fn config_path_tries_the_other_extension() {
    assert_eq!(alternate_config_path("/etc/aio/config.yml", '/').as_deref(), Some("/etc/aio/config.yaml"));
    assert_eq!(alternate_config_path("config.yaml", '/').as_deref(), Some("config.yml"));
    assert_eq!(alternate_config_path("dir/.yml", '/'), None);
    assert_eq!(alternate_config_path("config.toml", '/'), None);
    assert_eq!(config_path("a.yml", true, true, '/').as_deref(), Some("a.yml"));
    assert_eq!(config_path("a.yml", false, true, '/').as_deref(), Some("a.yaml"));
    assert_eq!(config_path("a.yml", false, false, '/'), None);
    assert_eq!(config_path("a.json", false, true, '/'), None);
}
