use vstd::prelude::*;

verus! {

/// Appends the items of `other` to `vec`, in order.
pub fn append_to_vec<T: Copy>(vec: &mut Vec<T>, other: &[T])
    ensures
        final(vec)@ == old(vec)@ + other@,
{
    let n = other.len();
    let mut i: usize = 0;
    while i < n
        invariant
            n == other@.len(),
            i <= n,
            vec@ == old(vec)@ + other@.take(i as int),
        decreases n - i,
    {
        vec.push(other[i]);
        assert(other@.take(i + 1) =~= other@.take(i as int).push(other@[i as int]));
        i += 1;
    }
    assert(other@.take(n as int) =~= other@);
}


/// Whether `sep` occurs in `s` at position `p`.
pub open spec fn occurs_at(s: Seq<u8>, sep: Seq<u8>, p: int) -> bool {
    0 <= p && p + sep.len() <= s.len() && s.subrange(p, p + sep.len()) == sep
}

/// Whether `p` is where `sep` last occurs in `s`.
pub open spec fn is_last_occurrence(s: Seq<u8>, sep: Seq<u8>, p: int) -> bool {
    occurs_at(s, sep, p) && forall|q: int| p < q ==> !#[trigger] occurs_at(s, sep, q)
}

fn occurs_at_exec(s: &[u8], sep: &[u8], p: usize) -> (r: bool)
    requires
        p + sep@.len() <= s@.len(),
    ensures
        r == occurs_at(s@, sep@, p as int),
{
    let k = sep.len();
    let n = s.len();
    let mut i: usize = 0;
    while i < k
        invariant
            k == sep@.len(),
            n == s@.len(),
            p + k <= n,
            i <= k,
            forall|j: int| 0 <= j < i ==> s@[p + j] == sep@[j],
        decreases k - i,
    {
        if s[p + i] != sep[i] {
            assert(s@.subrange(p as int, p + k)[i as int] != sep@[i as int]);
            return false;
        }
        i += 1;
    }
    assert(s@.subrange(p as int, p + k) =~= sep@);
    true
}

/// Where `sep` last occurs in `s`, if it does.
fn last_occurrence(s: &[u8], sep: &[u8]) -> (r: Option<usize>)
    requires
        sep@.len() > 0,
    ensures
        r matches Some(p) ==> is_last_occurrence(s@, sep@, p as int),
        r is None ==> forall|q: int| !#[trigger] occurs_at(s@, sep@, q),
{
    let k = sep.len();
    let n = s.len();
    if k > n {
        return None;
    }
    let mut p: usize = n - k + 1;
    while p > 0
        invariant
            k == sep@.len(),
            n == s@.len(),
            k <= n,
            p <= n - k + 1,
            forall|q: int| p <= q ==> !#[trigger] occurs_at(s@, sep@, q),
        decreases p,
    {
        if occurs_at_exec(s, sep, p - 1) {
            return Some(p - 1);
        }
        p -= 1;
    }
    None
}

/// Where `sep` first occurs in `s` from position `from`, if it does.
fn first_occurrence(s: &[u8], sep: &[u8], from: usize) -> (r: Option<usize>)
    requires
        sep@.len() > 0,
        from <= s@.len(),
    ensures
        r matches Some(p) ==> from <= p && occurs_at(s@, sep@, p as int) && forall|q: int|
            from <= q < p ==> !#[trigger] occurs_at(s@, sep@, q),
        r is None ==> forall|q: int| from <= q ==> !#[trigger] occurs_at(s@, sep@, q),
{
    let k = sep.len();
    let n = s.len();
    let mut p: usize = from;
    while n - p >= k
        invariant
            k == sep@.len(),
            k > 0,
            n == s@.len(),
            from <= p <= n,
            forall|q: int| from <= q < p ==> !#[trigger] occurs_at(s@, sep@, q),
        decreases n - p,
    {
        if occurs_at_exec(s, sep, p) {
            return Some(p);
        }
        p += 1;
    }
    None
}

fn copy_range(s: &[u8], from: usize, to: usize, out: &mut Vec<u8>)
    requires
        from <= to <= s@.len(),
    ensures
        final(out)@ == old(out)@ + s@.subrange(from as int, to as int),
{
    let mut i: usize = from;
    while i < to
        invariant
            from <= i <= to,
            to <= s@.len(),
            out@ == old(out)@ + s@.subrange(from as int, i as int),
        decreases to - i,
    {
        out.push(s[i]);
        assert(s@.subrange(from as int, i + 1) =~= s@.subrange(from as int, i as int).push(s@[i as int]));
        i += 1;
    }
}

/// Cuts a stream of bytes at a separator: each chunk's complete pieces come
/// out, and what follows its last separator waits for the next chunk.
pub struct SplitBytesFactory {
    separator: Vec<u8>,
    rest: Vec<u8>,
}

impl SplitBytesFactory {
    pub closed spec fn separator_spec(&self) -> Seq<u8> {
        self.separator@
    }

    /// Bytes after the last separator seen, waiting for more.
    pub closed spec fn rest_spec(&self) -> Seq<u8> {
        self.rest@
    }

    pub fn new(separator: Vec<u8>) -> (r: SplitBytesFactory)
        requires
            separator@.len() > 0,
        ensures
            r.separator_spec() == separator@,
            r.rest_spec() == Seq::<u8>::empty(),
    {
        SplitBytesFactory { separator, rest: Vec::new() }
    }

    /// Takes the next chunk. When the separator occurs in it, the pieces up to
    /// its last occurrence, with the bytes kept from before, are handed out,
    /// and what follows is kept; otherwise the whole chunk is kept.
    pub fn new_iter(&mut self, bytes: &[u8]) -> (r: SplitBytes)
        requires
            old(self).separator_spec().len() > 0,
        ensures
            final(self).separator_spec() == old(self).separator_spec(),
            r.separator_spec() == old(self).separator_spec(),
            r.position_spec() == Some(0nat),
            (exists|p: int| is_last_occurrence(bytes@, old(self).separator_spec(), p)) || (r.bytes_spec()
                == Seq::<u8>::empty() && final(self).rest_spec() == old(self).rest_spec() + bytes@),
            forall|p: int|
                is_last_occurrence(bytes@, old(self).separator_spec(), p) ==> r.bytes_spec() == old(
                    self,
                ).rest_spec() + bytes@.subrange(0, p) && final(self).rest_spec() == bytes@.subrange(
                    p + old(self).separator_spec().len(),
                    bytes@.len() as int,
                ),
    {
        let k = self.separator.len();
        let n = bytes.len();
        let complete = match last_occurrence(bytes, self.separator.as_slice()) {
            Some(p) => {
                let mut current = Vec::new();
                std::mem::swap(&mut current, &mut self.rest);
                copy_range(bytes, 0, p, &mut current);
                let mut rest = Vec::new();
                copy_range(bytes, p + k, n, &mut rest);
                self.rest = rest;
                assert forall|q: int| is_last_occurrence(bytes@, self.separator@, q) implies q == p by {
                    if q < p {
                        assert(!occurs_at(bytes@, self.separator@, p as int));
                    } else if q > p {
                    }
                }
                current
            },
            None => {
                copy_range(bytes, 0, n, &mut self.rest);
                assert(bytes@.subrange(0, bytes@.len() as int) =~= bytes@);
                Vec::new()
            },
        };
        SplitBytes { bytes: complete, separator: self.separator.clone(), index: Some(0) }
    }
}

/// The pieces of a run of bytes between separators.
pub struct SplitBytes {
    bytes: Vec<u8>,
    separator: Vec<u8>,
    index: Option<usize>,
}

impl SplitBytes {
    pub closed spec fn bytes_spec(&self) -> Seq<u8> {
        self.bytes@
    }

    pub closed spec fn separator_spec(&self) -> Seq<u8> {
        self.separator@
    }

    /// Where the next piece starts; `None` once the last piece is out.
    pub closed spec fn position_spec(&self) -> Option<nat> {
        match self.index {
            Some(i) => Some(i as nat),
            None => None,
        }
    }

    pub closed spec fn wf(&self) -> bool {
        &&& self.separator@.len() > 0
        &&& (self.index matches Some(i) ==> i <= self.bytes@.len())
    }

    pub fn new(bytes: Vec<u8>, separator: Vec<u8>) -> (r: SplitBytes)
        requires
            separator@.len() > 0,
        ensures
            r.wf(),
            r.bytes_spec() == bytes@,
            r.separator_spec() == separator@,
            r.position_spec() == Some(0nat),
    {
        SplitBytes { bytes, separator, index: Some(0) }
    }

    /// The next piece: the bytes up to the next separator, or up to the end
    /// when none is left. An empty piece ends the pieces.
    #[verifier::spinoff_prover]
    pub fn next(&mut self) -> (r: Option<Vec<u8>>)
        requires
            old(self).wf(),
        ensures
            final(self).wf(),
            final(self).bytes_spec() == old(self).bytes_spec(),
            final(self).separator_spec() == old(self).separator_spec(),
            old(self).position_spec() is None ==> r is None && final(self).position_spec() is None,
            forall|i: nat, p: int|
                old(self).position_spec() == Some(i) && is_first_from(
                    old(self).bytes_spec(),
                    old(self).separator_spec(),
                    i as int,
                    p,
                ) ==> final(self).position_spec() == Some((p + old(self).separator_spec().len()) as nat)
                    && piece_is(r, old(self).bytes_spec().subrange(i as int, p)),
            forall|i: nat|
                old(self).position_spec() == Some(i) && #[trigger] no_occurrence_from(
                    old(self).bytes_spec(),
                    old(self).separator_spec(),
                    i as int,
                ) ==> final(self).position_spec() is None && piece_is(
                    r,
                    old(self).bytes_spec().subrange(i as int, old(self).bytes_spec().len() as int),
                ),
    {
        let k = self.separator.len();
        let n = self.bytes.len();
        match self.index {
            None => {
                assert(old(self).position_spec() is None);
                None
            },
            Some(i) => {
                let found = first_occurrence(self.bytes.as_slice(), self.separator.as_slice(), i);
                let end = match found {
                    Some(p) => {
                        self.index = Some(p + k);
                        p
                    },
                    None => {
                        self.index = None;
                        n
                    },
                };
                let mut piece = Vec::new();
                copy_range(self.bytes.as_slice(), i, end, &mut piece);
                assert(Seq::<u8>::empty() + self.bytes@.subrange(i as int, end as int) =~= self.bytes@.subrange(
                    i as int,
                    end as int,
                ));
                proof {
                    assert forall|p: int| is_first_from(self.bytes@, self.separator@, i as int, p) implies p
                        == end by {
                        if found is None {
                            assert(!occurs_at(self.bytes@, self.separator@, p));
                        } else if p < end {
                            assert(!occurs_at(self.bytes@, self.separator@, p));
                        } else if p > end {
                            assert(!occurs_at(self.bytes@, self.separator@, end as int));
                        }
                    }
                }
                let r = if end > i {
                    Some(piece)
                } else {
                    None
                };
                assert(piece_is(r, self.bytes@.subrange(i as int, end as int)));
                assert(found is None ==> self.position_spec() is None && end == n);
                if let Some(p) = found {
                    assert(occurs_at(self.bytes@, self.separator@, p as int));
                    assert(!no_occurrence_from(self.bytes@, self.separator@, i as int));
                }
                r
            },
        }
    }
}

/// Whether `sep` does not occur in `s` from position `i` on.
pub open spec fn no_occurrence_from(s: Seq<u8>, sep: Seq<u8>, i: int) -> bool {
    forall|q: int| i <= q ==> !#[trigger] occurs_at(s, sep, q)
}

/// `r` hands out `piece`, or nothing when `piece` is empty.
pub open spec fn piece_is(r: Option<Vec<u8>>, piece: Seq<u8>) -> bool {
    if piece.len() > 0 {
        r matches Some(v) && v@ == piece
    } else {
        r is None
    }
}

/// Whether `p` is where `sep` first occurs in `s` from position `i` on.
pub open spec fn is_first_from(s: Seq<u8>, sep: Seq<u8>, i: int, p: int) -> bool {
    i <= p && occurs_at(s, sep, p) && forall|q: int| i <= q < p ==> !#[trigger] occurs_at(s, sep, q)
}


/// `path` with a leading `~/` replaced by the home directory `home` and the
/// platform's path separator; any other path unchanged.
pub open spec fn resolved(path: Seq<char>, home: Seq<char>, separator: char) -> Seq<char> {
    if path.len() >= 2 && path[0] == '~' && path[1] == '/' {
        home.push(separator) + path.subrange(2, path.len() as int)
    } else {
        path
    }
}

/// Expands a leading `~/` of `path` into the home directory `home`.
pub fn resolve_path(path: &str, home: &str, separator: char) -> (r: String)
    ensures
        r@ == resolved(path@, home@, separator),
{
    let n = path.unicode_len();
    if n >= 2 && path.get_char(0) == '~' && path.get_char(1) == '/' {
        let mut r = String::from_str(home);
        crate::terminal::push_char(&mut r, separator);
        r.append(path.substring_char(2, n));
        r
    } else {
        String::from_str(path)
    }
}


/// Whether `c` separates path components: `/`, or the platform's `separator`.
pub open spec fn is_separator(c: char, separator: char) -> bool {
    c == '/' || c == separator
}

/// Whether `path` ends with the extension `ext` (given with its dot) of a
/// file name that has more than the extension.
pub open spec fn has_extension(path: Seq<char>, ext: Seq<char>, separator: char) -> bool {
    let n = path.len();
    n > ext.len() && path.subrange(n - ext.len(), n as int) == ext && !is_separator(
        path[n - ext.len() - 1],
        separator,
    )
}

/// The same configuration path with the other spelling of its extension:
/// `.yaml` for `.yml`, and the reverse.
pub open spec fn alternate_config(path: Seq<char>, separator: char) -> Option<Seq<char>> {
    let n = path.len();
    if has_extension(path, seq!['.', 'y', 'm', 'l'], separator) {
        Some(path.subrange(0, n - 3) + seq!['y', 'a', 'm', 'l'])
    } else if has_extension(path, seq!['.', 'y', 'a', 'm', 'l'], separator) {
        Some(path.subrange(0, n - 4) + seq!['y', 'm', 'l'])
    } else {
        None
    }
}

fn has_extension_exec(path: &str, ext: &str, separator: char) -> (r: bool)
    ensures
        r == has_extension(path@, ext@, separator),
{
    let n = path.unicode_len();
    let k = ext.unicode_len();
    if n <= k {
        return false;
    }
    let mut i: usize = 0;
    while i < k
        invariant
            n == path@.len(),
            k == ext@.len(),
            k < n,
            i <= k,
            forall|j: int| 0 <= j < i ==> path@[n - k + j] == ext@[j],
        decreases k - i,
    {
        if path.get_char(n - k + i) != ext.get_char(i) {
            assert(path@.subrange(n - k, n as int)[i as int] != ext@[i as int]);
            return false;
        }
        i += 1;
    }
    assert(path@.subrange(n - k, n as int) =~= ext@);
    let c = path.get_char(n - k - 1);
    !(c == '/' || c == separator)
}

/// The configuration path to try when `path` does not exist: the same path
/// with `.yaml` for `.yml` or the reverse; `None` for another extension.
pub fn alternate_config_path(path: &str, separator: char) -> (r: Option<String>)
    ensures
        r matches Some(a) ==> alternate_config(path@, separator) == Some(a@),
        r is None ==> alternate_config(path@, separator) is None,
{
    proof {
        reveal_strlit(".yml");
        reveal_strlit(".yaml");
        reveal_strlit("yml");
        reveal_strlit("yaml");
    }
    assert(".yml"@ =~= seq!['.', 'y', 'm', 'l']);
    assert(".yaml"@ =~= seq!['.', 'y', 'a', 'm', 'l']);
    let n = path.unicode_len();
    if has_extension_exec(path, ".yml", separator) {
        let mut r = String::from_str(path.substring_char(0, n - 3));
        r.append("yaml");
        assert("yaml"@ =~= seq!['y', 'a', 'm', 'l']);
        Some(r)
    } else if has_extension_exec(path, ".yaml", separator) {
        let mut r = String::from_str(path.substring_char(0, n - 4));
        r.append("yml");
        assert("yml"@ =~= seq!['y', 'm', 'l']);
        Some(r)
    } else {
        None
    }
}

/// The configuration file to read: `path` when it exists (`path_exists`),
/// else its alternate spelling when that exists (`alternate_exists`), else none.
pub fn config_path(path: &str, path_exists: bool, alternate_exists: bool, separator: char) -> (r: Option<
    String,
>)
    ensures
        path_exists ==> (r matches Some(p) && p@ == path@),
        !path_exists ==> match alternate_config(path@, separator) {
            Some(a) => if alternate_exists {
                (r matches Some(p) && p@ == a)
            } else {
                r is None
            },
            None => r is None,
        },
{
    if path_exists {
        return Some(String::from_str(path));
    }
    match alternate_config_path(path, separator) {
        Some(a) => if alternate_exists {
            Some(a)
        } else {
            None
        },
        None => None,
    }
}

} // verus!
