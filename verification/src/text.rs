//! Text helpers shared by the scanner, the cache layout and the exporter:
//! byte-wise ordering of names, ASCII case folding, and the small amount of
//! path arithmetic the library needs (final component, stem, extension,
//! joining, separator normalisation).
//!
//! Every function is specified over `Seq<char>`, the view of `str` and `String`.

use vstd::prelude::*;
use vstd::utf8::encode_utf8;

verus! {

/// `String::push` appends exactly one character.
///
/// Trusted: restates the documentation of `std::string::String::push`
/// ("Appends the given `char` to the end of this `String`").
pub assume_specification[ String::push ](s: &mut String, ch: char)
    ensures
        final(s)@ == old(s)@.push(ch),
;

// ---------------------------------------------------------------------------
// Ordering
// ---------------------------------------------------------------------------

/// Lexicographic "less than or equal" on byte strings: a proper prefix sorts
/// first, otherwise the first differing byte decides.
pub open spec fn lex_le(a: Seq<u8>, b: Seq<u8>) -> bool
    decreases a.len(),
{
    if a.len() == 0 {
        true
    } else if b.len() == 0 {
        false
    } else if a[0] != b[0] {
        a[0] < b[0]
    } else {
        lex_le(a.skip(1), b.skip(1))
    }
}

/// The order in which names are listed: lexicographic on the UTF-8 encoding,
/// which is the order `str` itself has.
pub open spec fn text_le(a: Seq<char>, b: Seq<char>) -> bool {
    lex_le(encode_utf8(a), encode_utf8(b))
}

/// Every byte string sorts at or before itself.
pub proof fn lemma_lex_le_reflexive(a: Seq<u8>)
    ensures
        lex_le(a, a),
    decreases a.len(),
{
    if a.len() > 0 {
        lemma_lex_le_reflexive(a.skip(1));
    }
}

/// Of two byte strings, one sorts at or before the other.
pub proof fn lemma_lex_le_total(a: Seq<u8>, b: Seq<u8>)
    ensures
        lex_le(a, b) || lex_le(b, a),
    decreases a.len(),
{
    if a.len() > 0 && b.len() > 0 && a[0] == b[0] {
        lemma_lex_le_total(a.skip(1), b.skip(1));
    }
}

/// Two byte strings that sort at or before each other are the same.
pub proof fn lemma_lex_le_antisymmetric(a: Seq<u8>, b: Seq<u8>)
    requires
        lex_le(a, b),
        lex_le(b, a),
    ensures
        a == b,
    decreases a.len(),
{
    if a.len() == 0 || b.len() == 0 {
        assert(a =~= b);
    } else {
        lemma_lex_le_antisymmetric(a.skip(1), b.skip(1));
        assert(a =~= seq![a[0]] + a.skip(1));
        assert(b =~= seq![b[0]] + b.skip(1));
    }
}

/// Sorting at or before carries over a byte string in between.
pub proof fn lemma_lex_le_transitive(a: Seq<u8>, b: Seq<u8>, c: Seq<u8>)
    requires
        lex_le(a, b),
        lex_le(b, c),
    ensures
        lex_le(a, c),
    decreases a.len(),
{
    if a.len() > 0 && b.len() > 0 && c.len() > 0 && a[0] == b[0] && b[0] == c[0] {
        lemma_lex_le_transitive(a.skip(1), b.skip(1), c.skip(1));
    }
}

/// Two texts with the same UTF-8 encoding are the same text.
pub proof fn lemma_encoding_injective(a: Seq<char>, b: Seq<char>)
    requires
        encode_utf8(a) == encode_utf8(b),
    ensures
        a == b,
{
    vstd::utf8::encode_utf8_decode_utf8(a);
    vstd::utf8::encode_utf8_decode_utf8(b);
}

/// `text_le` is a total order on texts.
pub proof fn lemma_text_le_total_order(a: Seq<char>, b: Seq<char>, c: Seq<char>)
    ensures
        text_le(a, a),
        text_le(a, b) || text_le(b, a),
        text_le(a, b) && text_le(b, a) ==> a == b,
        text_le(a, b) && text_le(b, c) ==> text_le(a, c),
{
    lemma_lex_le_reflexive(encode_utf8(a));
    lemma_lex_le_total(encode_utf8(a), encode_utf8(b));
    if text_le(a, b) && text_le(b, a) {
        lemma_lex_le_antisymmetric(encode_utf8(a), encode_utf8(b));
        lemma_encoding_injective(a, b);
    }
    if text_le(a, b) && text_le(b, c) {
        lemma_lex_le_transitive(encode_utf8(a), encode_utf8(b), encode_utf8(c));
    }
}

/// Whether `a` sorts at or before `b`.
pub fn precedes(a: &str, b: &str) -> (r: bool)
    ensures
        r == text_le(a@, b@),
{
    let x = a.as_bytes();
    let y = b.as_bytes();
    let mut i: usize = 0;
    assert(x@.skip(0) =~= x@ && y@.skip(0) =~= y@);
    while i < x.len() && i < y.len()
        invariant
            i <= x@.len(),
            i <= y@.len(),
            x@ == encode_utf8(a@),
            y@ == encode_utf8(b@),
            lex_le(x@, y@) == lex_le(x@.skip(i as int), y@.skip(i as int)),
        decreases x@.len() - i,
    {
        let p = x[i];
        let q = y[i];
        assert(x@.skip(i as int)[0] == p && y@.skip(i as int)[0] == q);
        if p != q {
            return p < q;
        }
        assert(x@.skip(i as int).skip(1) =~= x@.skip(i + 1));
        assert(y@.skip(i as int).skip(1) =~= y@.skip(i + 1));
        i += 1;
    }
    i == x.len()
}

/// Whether two texts are the same sequence of characters.
pub fn same_text(a: &str, b: &str) -> (r: bool)
    ensures
        r == (a@ == b@),
{
    let x = a.as_bytes();
    let y = b.as_bytes();
    if x.len() != y.len() {
        return false;
    }
    let mut i: usize = 0;
    while i < x.len()
        invariant
            x@.len() == y@.len(),
            i <= x@.len(),
            x@ == encode_utf8(a@),
            y@ == encode_utf8(b@),
            forall|j: int| 0 <= j < i ==> x@[j] == y@[j],
        decreases x@.len() - i,
    {
        if x[i] != y[i] {
            return false;
        }
        i += 1;
    }
    proof {
        assert(x@ =~= y@);
        lemma_encoding_injective(a@, b@);
    }
    true
}

// ---------------------------------------------------------------------------
// Case folding and building
// ---------------------------------------------------------------------------

/// Lower-case form of an ASCII letter; every other character is itself.
pub open spec fn ascii_lower(c: char) -> char {
    if 'A' <= c && c <= 'Z' {
        ((c as u8) + 32) as char
    } else {
        c
    }
}

/// `s` with every ASCII capital replaced by its lower-case letter.
pub open spec fn lowercase(s: Seq<char>) -> Seq<char> {
    Seq::new(s.len(), |i: int| ascii_lower(s[i]))
}

/// Folds the ASCII capitals of a text to lower case.
pub fn to_lowercase(s: &str) -> (out: String)
    ensures
        out@ == lowercase(s@),
{
    let mut out = String::new();
    for c in it: s.chars()
        invariant
            it.seq() == s@,
            out@ == lowercase(s@.take(it.index() as int)),
    {
        let folded = if 'A' <= c && c <= 'Z' {
            ((c as u8) + 32) as char
        } else {
            c
        };
        out.push(folded);
        assert(lowercase(s@.take(it.index() + 1)) =~= lowercase(s@.take(it.index() as int)).push(
            folded,
        ));
    }
    assert(s@.take(s@.len() as int) =~= s@);
    out
}

/// Concatenation of two texts as a fresh `String`.
pub fn append_text(a: &str, b: &str) -> (out: String)
    ensures
        out@ == a@ + b@,
{
    let mut out = String::from_str(a);
    out.append(b);
    out
}

// ---------------------------------------------------------------------------
// Paths
// ---------------------------------------------------------------------------

/// A path with every backslash turned into a forward slash.
pub open spec fn normalized(path: Seq<char>) -> Seq<char> {
    Seq::new(path.len(), |i: int| if path[i] == '\\' { '/' } else { path[i] })
}

/// Rewrites a path for display: separators become `/`, nothing else changes.
pub fn normalize_path(path: &str) -> (out: String)
    ensures
        out@ == normalized(path@),
{
    let mut out = String::new();
    for c in it: path.chars()
        invariant
            it.seq() == path@,
            out@ == normalized(path@.take(it.index() as int)),
    {
        let d = if c == '\\' { '/' } else { c };
        out.push(d);
        assert(normalized(path@.take(it.index() + 1)) =~= normalized(
            path@.take(it.index() as int),
        ).push(d));
    }
    assert(path@.take(path@.len() as int) =~= path@);
    out
}

/// Index of the last occurrence of `c` in `s`, or `-1` when there is none.
pub open spec fn last_index_of(s: Seq<char>, c: char) -> int
    decreases s.len(),
{
    if s.len() == 0 {
        -1
    } else if s.last() == c {
        s.len() - 1
    } else {
        last_index_of(s.drop_last(), c)
    }
}

/// What `last_index_of` finds: an occurrence of `c` with none after it, or
/// `-1` when `c` does not occur.
pub proof fn lemma_last_index_of(s: Seq<char>, c: char)
    ensures
        -1 <= last_index_of(s, c) < s.len(),
        last_index_of(s, c) >= 0 ==> s[last_index_of(s, c)] == c,
        forall|j: int| last_index_of(s, c) < j < s.len() ==> s[j] != c,
    decreases s.len(),
{
    if s.len() > 0 && s.last() != c {
        lemma_last_index_of(s.drop_last(), c);
        assert forall|j: int| last_index_of(s, c) < j < s.len() implies s[j] != c by {
            if j < s.len() - 1 {
                assert(s.drop_last()[j] == s[j]);
            }
        }
    }
}

/// Number of characters in `s` and the position of the last `c`, if any.
fn scan_last(s: &str, c: char) -> (r: (usize, Option<usize>))
    ensures
        r.0 == s@.len(),
        match r.1 {
            Some(i) => i == last_index_of(s@, c),
            None => last_index_of(s@, c) == -1,
        },
{
    let total = s.unicode_len();
    let mut len: usize = 0;
    let mut last: Option<usize> = None;
    for d in it: s.chars()
        invariant
            it.seq() == s@,
            len == it.index(),
            total == s@.len(),
            match last {
                Some(i) => i == last_index_of(s@.take(it.index() as int), c),
                None => last_index_of(s@.take(it.index() as int), c) == -1,
            },
    {
        proof {
            let next = s@.take(it.index() + 1);
            assert(next.drop_last() =~= s@.take(it.index() as int));
            assert(next.last() == d);
        }
        if d == c {
            last = Some(len);
        }
        len += 1;
    }
    assert(s@.take(s@.len() as int) =~= s@);
    (total, last)
}

/// The part of `path` after its last `/`; the whole of it when there is none.
pub open spec fn final_component(path: Seq<char>) -> Seq<char> {
    path.skip(last_index_of(path, '/') + 1)
}

/// Position of the dot that separates stem and extension in a file name, or
/// `-1`: a name without a dot, or whose only dot comes first, has no extension.
pub open spec fn extension_dot(name: Seq<char>) -> int {
    let dot = last_index_of(name, '.');
    if dot <= 0 {
        -1
    } else {
        dot
    }
}

/// Extension of the final component of `path`: what follows its last dot.
pub open spec fn extension_of(path: Seq<char>) -> Option<Seq<char>> {
    let name = final_component(path);
    let dot = extension_dot(name);
    if dot < 0 {
        None
    } else {
        Some(name.skip(dot + 1))
    }
}

/// Final component of `path` without its extension.
pub open spec fn stem_of(path: Seq<char>) -> Seq<char> {
    let name = final_component(path);
    let dot = extension_dot(name);
    if dot < 0 {
        name
    } else {
        name.take(dot)
    }
}

/// The final component of `path`, borrowed from it.
pub fn file_name(path: &str) -> (name: &str)
    ensures
        name@ == final_component(path@),
{
    let (len, slash) = scan_last(path, '/');
    proof {
        lemma_last_index_of(path@, '/');
    }
    match slash {
        Some(i) => {
            let name = path.substring_char(i + 1, len);
            assert(name@ =~= final_component(path@));
            name
        },
        None => {
            assert(path@.skip(0) =~= path@);
            path
        },
    }
}

/// Extension of a path's final component, without the dot.
pub fn file_extension(path: &str) -> (ext: Option<String>)
    ensures
        match ext {
            Some(e) => extension_of(path@) == Some(e@),
            None => extension_of(path@) is None,
        },
{
    let name = file_name(path);
    let (len, dot) = scan_last(name, '.');
    proof {
        lemma_last_index_of(name@, '.');
    }
    match dot {
        Some(i) => {
            if i == 0 {
                None
            } else {
                let tail = name.substring_char(i + 1, len);
                assert(tail@ =~= name@.skip(i + 1));
                Some(String::from_str(tail))
            }
        },
        None => None,
    }
}

/// Final component of a path with the extension removed.
pub fn file_stem(path: &str) -> (stem: String)
    ensures
        stem@ == stem_of(path@),
{
    let name = file_name(path);
    let (len, dot) = scan_last(name, '.');
    proof {
        lemma_last_index_of(name@, '.');
    }
    match dot {
        Some(i) => {
            if i == 0 {
                String::from_str(name)
            } else {
                let head = name.substring_char(0, i);
                assert(head@ =~= name@.take(i as int));
                String::from_str(head)
            }
        },
        None => String::from_str(name),
    }
}

/// `base` and `component` as one path: a single `/` is put between them unless
/// `base` is empty or already ends in one.
pub open spec fn joined(base: Seq<char>, component: Seq<char>) -> Seq<char> {
    if base.len() == 0 || base.last() == '/' {
        base + component
    } else {
        base.push('/') + component
    }
}

/// Joins a path and a component below it.
pub fn join_path(base: &str, component: &str) -> (out: String)
    ensures
        out@ == joined(base@, component@),
{
    let (len, slash) = scan_last(base, '/');
    proof {
        lemma_last_index_of(base@, '/');
    }
    let mut out = String::from_str(base);
    let ends_in_slash = match slash {
        Some(i) => i + 1 == len,
        None => false,
    };
    if len != 0 && !ends_in_slash {
        out.push('/');
    }
    out.append(component);
    out
}

} // verus!
