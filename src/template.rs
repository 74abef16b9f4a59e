use vstd::prelude::*;
use std::collections::HashMap;
use crate::terminal::push_char;

verus! {

/// What the `\w` class of the regex crate matches for `c`.
pub uninterp spec fn word_char(c: char) -> bool;

/// Relies on the regex crate's `\w` class (Unicode word characters).
#[verifier::external_body]
fn is_word_char(c: char) -> (r: bool)
    ensures
        r == word_char(c),
{
    regex::Regex::new(r"^\w$").expect("valid pattern").is_match(&c.to_string())
}

/// Whether `args` has a key whose text is `name`.
pub open spec fn has_arg(args: Map<String, String>, name: Seq<char>) -> bool {
    exists|k: String| args.contains_key(k) && k@ == name
}

/// The text that `name` has in `args`, or an empty text when it has none.
pub open spec fn arg_text(args: Map<String, String>, name: Seq<char>) -> Seq<char> {
    if has_arg(args, name) {
        args[choose|k: String| args.contains_key(k) && k@ == name]@
    } else {
        Seq::empty()
    }
}

/// Relies on `HashMap::get`: the value stored under the key equal to `name`,
/// if there is one.
#[verifier::external_body]
fn arg_value(args: &HashMap<String, String>, name: &str) -> (r: Option<String>)
    ensures
        r is Some == has_arg(args@, name@),
        r matches Some(v) ==> forall|k: String| #[trigger] args@.contains_key(k) && k@ == name@ ==> v@ == args@[k]@,
{
    args.get(name).cloned()
}

/// Where the run of word characters of `s` that starts at `i` ends.
pub open spec fn word_end(s: Seq<char>, i: int) -> int
    decreases s.len() - i,
{
    if 0 <= i < s.len() && word_char(s[i]) {
        word_end(s, i + 1)
    } else {
        i
    }
}

/// `vals` without its first value; empty stays empty.
pub open spec fn rest_of(vals: Seq<Seq<char>>) -> Seq<Seq<char>> {
    if vals.len() > 0 {
        vals.drop_first()
    } else {
        vals
    }
}

/// The first of `vals`, or an empty text.
pub open spec fn first_of(vals: Seq<Seq<char>>) -> Seq<char> {
    if vals.len() > 0 {
        vals[0]
    } else {
        Seq::empty()
    }
}

/// Whether `$$name` starts at `i` of `s`.
pub open spec fn escaped_at(s: Seq<char>, i: int) -> bool {
    0 <= i && i + 2 < s.len() && s[i] == '$' && s[i + 1] == '$' && word_char(s[i + 2])
}

/// Whether `$name` (and not `$$name`) starts at `i` of `s`.
pub open spec fn placeholder_at(s: Seq<char>, i: int) -> bool {
    !escaped_at(s, i) && 0 <= i && i + 1 < s.len() && s[i] == '$' && word_char(s[i + 1])
}

/// `s` from position `i` with each `$$name` written `$name` and each `$name`
/// replaced, in order, by the values `vals` (an empty text once they run out).
/// Placeholders are found from left to right; a name is the longest run of
/// word characters.
pub open spec fn substituted(s: Seq<char>, i: int, vals: Seq<Seq<char>>) -> Seq<char>
    decreases s.len() - i,
{
    if i < 0 || i >= s.len() {
        Seq::empty()
    } else if escaped_at(s, i) {
        let e = word_end(s, i + 2);
        if i < e <= s.len() {
            seq!['$'] + s.subrange(i + 2, e) + substituted(s, e, vals)
        } else {
            Seq::empty()
        }
    } else if placeholder_at(s, i) {
        let e = word_end(s, i + 1);
        if i < e <= s.len() {
            first_of(vals) + substituted(s, e, rest_of(vals))
        } else {
            Seq::empty()
        }
    } else {
        seq![s[i]] + substituted(s, i + 1, vals)
    }
}

/// The names of the `$name` placeholders of `s` from position `i`, in order.
pub open spec fn placeholders(s: Seq<char>, i: int) -> Seq<Seq<char>>
    decreases s.len() - i,
{
    if i < 0 || i >= s.len() {
        Seq::empty()
    } else if escaped_at(s, i) {
        let e = word_end(s, i + 2);
        if i < e <= s.len() {
            placeholders(s, e)
        } else {
            Seq::empty()
        }
    } else if placeholder_at(s, i) {
        let e = word_end(s, i + 1);
        if i < e <= s.len() {
            seq![s.subrange(i + 1, e)] + placeholders(s, e)
        } else {
            Seq::empty()
        }
    } else {
        placeholders(s, i + 1)
    }
}

proof fn lemma_word_end(s: Seq<char>, i: int)
    requires
        0 <= i <= s.len(),
    ensures
        i <= word_end(s, i) <= s.len(),
        forall|j: int| i <= j < word_end(s, i) ==> word_char(#[trigger] s[j]),
    decreases s.len() - i,
{
    if i < s.len() && word_char(s[i]) {
        lemma_word_end(s, i + 1);
    }
}

fn word_end_exec(s: &str, i: usize) -> (r: usize)
    requires
        i <= s@.len(),
    ensures
        r == word_end(s@, i as int),
{
    let n = s.unicode_len();
    let mut j = i;
    proof {
        lemma_word_end(s@, i as int);
    }
    while j < n && is_word_char(s.get_char(j))
        invariant
            n == s@.len(),
            i <= j <= n,
            word_end(s@, j as int) == word_end(s@, i as int),
        decreases n - j,
    {
        j += 1;
    }
    j
}

fn escaped_at_exec(s: &str, i: usize) -> (r: bool)
    requires
        i < s@.len(),
    ensures
        r == escaped_at(s@, i as int),
{
    let n = s.unicode_len();
    n - i > 2 && s.get_char(i) == '$' && s.get_char(i + 1) == '$' && is_word_char(s.get_char(i + 2))
}

fn placeholder_at_exec(s: &str, i: usize) -> (r: bool)
    requires
        i < s@.len(),
    ensures
        r == placeholder_at(s@, i as int),
{
    let n = s.unicode_len();
    !escaped_at_exec(s, i) && n - i > 1 && s.get_char(i) == '$' && is_word_char(s.get_char(i + 1))
}

/// The names of the `$name` placeholders of `content`, in order.
pub fn placeholder_names(content: &str) -> (r: Vec<String>)
    ensures
        r@.map_values(|v: String| v@) == placeholders(content@, 0),
{
    let ghost s = content@;
    let n = content.unicode_len();
    let mut out: Vec<String> = Vec::new();
    let mut i: usize = 0;
    while i < n
        invariant
            n == s.len(),
            s == content@,
            i <= n,
            out@.map_values(|v: String| v@) + placeholders(s, i as int) == placeholders(s, 0),
        decreases n - i,
    {
        let ghost before = out@.map_values(|v: String| v@);
        if escaped_at_exec(content, i) {
            proof {
                lemma_word_end(s, i + 2);
            }
            i = word_end_exec(content, i + 2);
        } else if placeholder_at_exec(content, i) {
            proof {
                lemma_word_end(s, i + 1);
            }
            let e = word_end_exec(content, i + 1);
            out.push(String::from_str(content.substring_char(i + 1, e)));
            assert(out@.map_values(|v: String| v@) =~= before.push(s.subrange(i + 1, e as int)));
            assert(before + placeholders(s, i as int) =~= out@.map_values(|v: String| v@) + placeholders(
                s,
                e as int,
            ));
            i = e;
        } else {
            i += 1;
        }
    }
    assert(out@.map_values(|v: String| v@) + placeholders(s, n as int) =~= out@.map_values(
        |v: String| v@,
    ));
    out
}

/// `content` with each `$$name` written `$name` and each `$name` replaced by
/// the next of `values` (an empty text once they run out).
pub fn substitute(content: &str, values: &[String]) -> (r: String)
    ensures
        r@ == substituted(content@, 0, values@.map_values(|v: String| v@)),
{
    let ghost s = content@;
    let ghost vals = values@.map_values(|v: String| v@);
    let n = content.unicode_len();
    let mut out = String::new();
    let mut i: usize = 0;
    let mut k: usize = 0;
    assert(vals.subrange(0, vals.len() as int) =~= vals);
    while i < n
        invariant
            n == s.len(),
            s == content@,
            vals == values@.map_values(|v: String| v@),
            i <= n,
            k <= vals.len(),
            out@ + substituted(s, i as int, vals.subrange(k as int, vals.len() as int)) == substituted(
                s,
                0,
                vals,
            ),
        decreases n - i,
    {
        let ghost before = out@;
        let ghost vs = vals.subrange(k as int, vals.len() as int);
        if escaped_at_exec(content, i) {
            proof {
                lemma_word_end(s, i + 2);
            }
            let e = word_end_exec(content, i + 2);
            push_char(&mut out, '$');
            out.append(content.substring_char(i + 2, e));
            assert(before + substituted(s, i as int, vs) =~= out@ + substituted(s, e as int, vs));
            i = e;
        } else if placeholder_at_exec(content, i) {
            proof {
                lemma_word_end(s, i + 1);
            }
            let e = word_end_exec(content, i + 1);
            if k < values.len() {
                out.append(values[k].as_str());
                k += 1;
                assert(rest_of(vs) =~= vals.subrange(k as int, vals.len() as int));
            } else {
                assert(first_of(vs) =~= Seq::<char>::empty());
            }
            assert(before + substituted(s, i as int, vs) =~= out@ + substituted(
                s,
                e as int,
                vals.subrange(k as int, vals.len() as int),
            ));
            i = e;
        } else {
            push_char(&mut out, content.get_char(i));
            assert(before + substituted(s, i as int, vs) =~= out@ + substituted(s, i + 1, vs));
            i += 1;
        }
    }
    assert(out@ + substituted(s, n as int, vals.subrange(k as int, vals.len() as int)) =~= out@);
    out
}

/// `content` with each `$$name` written `$name` and each `$name` replaced by
/// the text of `name` in `args`, or removed when `args` has none.
pub open spec fn formatted(content: Seq<char>, args: Map<String, String>) -> Seq<char> {
    substituted(content, 0, placeholders(content, 0).map_values(|n: Seq<char>| arg_text(args, n)))
}

/// `content` with each `$$name` written `$name` and each `$name` replaced by
/// the value of `name` in `args`, or removed when `args` has none.
pub fn format_content(content: &str, args: &HashMap<String, String>) -> (r: String)
    ensures
        r@ == formatted(content@, args@),
{
    let names = placeholder_names(content);
    let ghost ns = names@.map_values(|v: String| v@);
    let mut values: Vec<String> = Vec::new();
    let n = names.len();
    let mut i: usize = 0;
    while i < n
        invariant
            n == names@.len(),
            ns == names@.map_values(|v: String| v@),
            i <= n,
            values@.map_values(|v: String| v@) == ns.take(i as int).map_values(|m: Seq<char>| arg_text(args@, m)),
        decreases n - i,
    {
        let v = match arg_value(args, names[i].as_str()) {
            Some(v) => v,
            None => String::new(),
        };
        proof {
            let name = ns[i as int];
            if has_arg(args@, name) {
                let k = choose|k: String| args@.contains_key(k) && k@ == name;
                assert(args@.contains_key(k) && k@ == name);
            }
        }
        let ghost before = values@.map_values(|v: String| v@);
        values.push(v);
        assert(ns.take(i + 1) =~= ns.take(i as int).push(ns[i as int]));
        assert(values@.map_values(|v: String| v@) =~= before.push(arg_text(args@, ns[i as int])));
        assert(values@.map_values(|v: String| v@) =~= ns.take(i + 1).map_values(|m: Seq<char>| arg_text(args@, m)));
        i += 1;
    }
    assert(ns.take(n as int) =~= ns);
    substitute(content, values.as_slice())
}

} // verus!
