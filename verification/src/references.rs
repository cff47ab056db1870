//! Internal object references found in version bodies: `[[title]]` wikilinks and Markdown
//! links to `kival://` object URLs, with their UTF-8 byte spans.
use uuid::Uuid;
use vstd::prelude::*;
use vstd::multiset::Multiset;
use crate::strset::string_set;
use crate::text::{
    chars_of, lemma_utf8_size_take, str_eq, string_of_range, trim, trim_string, trimmed_string, utf8_size,
    utf8_width,
};

verus! {

/// Kind of internal object reference found in version content.
#[derive(Debug, Clone, Copy, PartialEq, Eq, Structural)]
pub enum ObjectReferenceKind {
    /// Double-bracket title reference.
    Wikilink,
    /// Markdown link with a Kival object URL.
    KivalObjectLink,
}

/// The stored name of a reference kind.
pub open spec fn reference_kind_name(k: ObjectReferenceKind) -> Seq<char> {
    match k {
        ObjectReferenceKind::Wikilink => "wikilink"@,
        ObjectReferenceKind::KivalObjectLink => "kival_object_link"@,
    }
}

impl ObjectReferenceKind {
    /// Returns the database representation.
    pub fn as_str(self) -> (s: &'static str)
        ensures
            s@ == reference_kind_name(self),
    {
        match self {
            ObjectReferenceKind::Wikilink => "wikilink",
            ObjectReferenceKind::KivalObjectLink => "kival_object_link",
        }
    }
}

/// The 128-bit value of the UUID that `s` spells, in any form `Uuid::parse_str` accepts
/// (simple, hyphenated, braced or URN), or `None`.
pub uninterp spec fn uuid_of(s: Seq<char>) -> Option<u128>;

/// Parses a UUID (`Uuid::parse_str`), as its 128-bit value.
#[verifier::external_body]
pub(crate) fn parse_uuid(s: &str) -> (r: Option<u128>)
    ensures
        r == uuid_of(s@),
{
    match Uuid::parse_str(s) {
        Ok(u) => Some(u.as_u128()),
        Err(_) => None,
    }
}

/// Parsed internal object reference before resolution.
#[derive(Debug, Clone, PartialEq, Eq)]
pub struct ParsedObjectReference {
    /// Raw target text from the source content.
    pub raw_target: String,
    /// Optional display text.
    pub display_text: Option<String>,
    /// Parsed reference kind.
    pub kind: ObjectReferenceKind,
    /// Inclusive UTF-8 byte offset in the source body.
    pub span_start: i32,
    /// Exclusive UTF-8 byte offset in the source body.
    pub span_end: i32,
    /// Object ID encoded by a Kival URL, when present.
    pub target_object_id: Option<u128>,
    /// Workspace ID encoded by a fully scoped Kival URL, when present.
    pub target_workspace_id: Option<u128>,
}

/// A parsed reference, by value.
pub struct RefView {
    /// Raw target text.
    pub raw_target: Seq<char>,
    /// Optional display text.
    pub display_text: Option<Seq<char>>,
    /// Reference kind.
    pub kind: ObjectReferenceKind,
    /// Inclusive UTF-8 byte offset.
    pub span_start: int,
    /// Exclusive UTF-8 byte offset.
    pub span_end: int,
    /// Object ID of a Kival URL.
    pub target_object_id: Option<u128>,
    /// Workspace ID of a fully scoped Kival URL.
    pub target_workspace_id: Option<u128>,
}

/// The text of an optional string.
pub open spec fn opt_text(o: Option<String>) -> Option<Seq<char>> {
    match o {
        Some(s) => Some(s@),
        None => None,
    }
}

/// A reference, by value.
pub open spec fn ref_view(r: ParsedObjectReference) -> RefView {
    RefView {
        raw_target: r.raw_target@,
        display_text: opt_text(r.display_text),
        kind: r.kind,
        span_start: r.span_start as int,
        span_end: r.span_end as int,
        target_object_id: r.target_object_id,
        target_workspace_id: r.target_workspace_id,
    }
}

/// References, by value.
pub open spec fn refs_view(v: Seq<ParsedObjectReference>) -> Seq<RefView> {
    v.map_values(|r: ParsedObjectReference| ref_view(r))
}

/// First index `k >= i` with `s[k] == a` and `s[k + 1] == b`.
pub open spec fn find_pair(s: Seq<char>, i: int, a: char, b: char) -> Option<int>
    decreases s.len() - i,
{
    if i < 0 || i + 1 >= s.len() {
        None
    } else if s[i] == a && s[i + 1] == b {
        Some(i)
    } else {
        find_pair(s, i + 1, a, b)
    }
}

/// First index `k >= i` with `s[k] == c`.
pub open spec fn find_ch(s: Seq<char>, i: int, c: char) -> Option<int>
    decreases s.len() - i,
{
    if i < 0 || i >= s.len() {
        None
    } else if s[i] == c {
        Some(i)
    } else {
        find_ch(s, i + 1, c)
    }
}

/// First index `k >= i` where `pat` occurs in `s`.
pub open spec fn find_seq(s: Seq<char>, pat: Seq<char>, i: int) -> Option<int>
    decreases s.len() + 1 - i,
{
    if i < 0 || i + pat.len() > s.len() {
        None
    } else if s.subrange(i, i + pat.len()) == pat {
        Some(i)
    } else {
        find_seq(s, pat, i + 1)
    }
}

/// `find_pair` finds a pair at or after `i`.
pub proof fn lemma_find_pair(s: Seq<char>, i: int, a: char, b: char)
    requires
        0 <= i,
    ensures
        find_pair(s, i, a, b) matches Some(k) ==> i <= k && k + 1 < s.len() && s[k] == a && s[k + 1] == b,
    decreases s.len() - i,
{
    if i + 1 < s.len() && !(s[i] == a && s[i + 1] == b) {
        lemma_find_pair(s, i + 1, a, b);
    }
}

/// `find_ch` finds the character at or after `i`.
pub proof fn lemma_find_ch(s: Seq<char>, i: int, c: char)
    requires
        0 <= i,
    ensures
        find_ch(s, i, c) matches Some(k) ==> i <= k < s.len() && s[k] == c,
    decreases s.len() - i,
{
    if i < s.len() && s[i] != c {
        lemma_find_ch(s, i + 1, c);
    }
}

/// `find_seq` finds the pattern at or after `i`.
pub proof fn lemma_find_seq(s: Seq<char>, pat: Seq<char>, i: int)
    requires
        0 <= i,
    ensures
        find_seq(s, pat, i) matches Some(k) ==> i <= k && k + pat.len() <= s.len() && s.subrange(k, k + pat.len()) == pat,
    decreases s.len() + 1 - i,
{
    if i + pat.len() <= s.len() && s.subrange(i, i + pat.len()) != pat {
        lemma_find_seq(s, pat, i + 1);
    }
}

/// Finds the first `a b` pair at or after `i`.
fn find_pair_from(v: &Vec<char>, i: usize, a: char, b: char) -> (r: Option<usize>)
    ensures
        match r {
            Some(k) => find_pair(v@, i as int, a, b) == Some(k as int),
            None => find_pair(v@, i as int, a, b) is None,
        },
{
    let mut k = i;
    while k < v.len() && k + 1 < v.len()
        invariant
            i <= k,
            find_pair(v@, i as int, a, b) == find_pair(v@, k as int, a, b),
        decreases v@.len() - k,
    {
        if v[k] == a && v[k + 1] == b {
            return Some(k);
        }
        k += 1;
    }
    None
}

/// Finds the first `c` at or after `i`.
fn find_ch_from(v: &Vec<char>, i: usize, c: char) -> (r: Option<usize>)
    ensures
        match r {
            Some(k) => find_ch(v@, i as int, c) == Some(k as int),
            None => find_ch(v@, i as int, c) is None,
        },
{
    let mut k = i;
    while k < v.len()
        invariant
            i <= k,
            find_ch(v@, i as int, c) == find_ch(v@, k as int, c),
        decreases v@.len() - k,
    {
        if v[k] == c {
            return Some(k);
        }
        k += 1;
    }
    None
}

/// Finds the first occurrence of `pat` at or after index 0.
fn find_seq_from(v: &Vec<char>, pat: &Vec<char>) -> (r: Option<usize>)
    ensures
        match r {
            Some(k) => find_seq(v@, pat@, 0) == Some(k as int),
            None => find_seq(v@, pat@, 0) is None,
        },
{
    if pat.len() > v.len() {
        return None;
    }
    let mut k: usize = 0;
    while k <= v.len() - pat.len()
        invariant
            pat@.len() <= v@.len(),
            k <= v@.len() - pat@.len() + 1,
            find_seq(v@, pat@, 0) == find_seq(v@, pat@, k as int),
        decreases v@.len() - pat@.len() + 1 - k,
    {
        let mut j: usize = 0;
        let mut same = true;
        while j < pat.len()
            invariant
                j <= pat@.len(),
                k + pat@.len() <= v@.len() <= usize::MAX,
                same == (forall|t: int| 0 <= t < j ==> v@[k + t] == pat@[t]),
            decreases pat@.len() - j,
        {
            if v[k + j] != pat[j] {
                same = false;
            }
            j += 1;
        }
        proof {
            if same {
                assert(v@.subrange(k as int, k + pat@.len()) =~= pat@);
            } else {
                let t = choose|t: int| 0 <= t < pat@.len() && v@[k + t] != pat@[t];
                assert(v@.subrange(k as int, k + pat@.len())[t] != pat@[t]);
            }
        }
        if same {
            return Some(k);
        }
        k += 1;
    }
    None
}

/// The trimmed text, unless it is empty.
pub open spec fn non_empty(s: Seq<char>) -> Option<Seq<char>> {
    if trim(s).len() == 0 {
        None
    } else {
        Some(trim(s))
    }
}

/// Returns a trimmed owned string unless it is empty.
pub fn non_empty_owned(value: &str) -> (r: Option<String>)
    ensures
        opt_text(r) == non_empty(value@),
{
    let v = chars_of(value);
    assert(v@.subrange(0, v@.len() as int) =~= v@);
    let t = trimmed_string(&v, 0, v.len());
    if t.as_str().is_empty() {
        None
    } else {
        Some(t)
    }
}

/// Byte offset of character `k` in `body`.
pub open spec fn byte_at(body: Seq<char>, k: int) -> int {
    utf8_size(body.take(k)) as int
}

/// `r` with the byte span of characters `[start, end)`, if both offsets fit an `i32`.
pub open spec fn spanned(body: Seq<char>, r: RefView, start: int, end: int) -> Seq<RefView> {
    if byte_at(body, start) <= i32::MAX && byte_at(body, end) <= i32::MAX {
        seq![RefView { span_start: byte_at(body, start), span_end: byte_at(body, end), ..r }]
    } else {
        Seq::empty()
    }
}

/// Byte offset of character `k`, if it fits an `i32`.
fn byte_offset(v: &Vec<char>, k: usize) -> (r: Option<i32>)
    requires
        k <= v@.len(),
    ensures
        match r {
            Some(n) => n as int == byte_at(v@, k as int),
            None => byte_at(v@, k as int) > i32::MAX,
        },
{
    let mut n: u64 = 0;
    let mut i: usize = 0;
    while i < k
        invariant
            i <= k <= v@.len(),
            n == utf8_size(v@.take(i as int)),
            n <= i32::MAX,
        decreases k - i,
    {
        proof {
            lemma_utf8_size_take(v@, i as int);
        }
        n = n + utf8_width(v[i]) as u64;
        if n > 0x7fff_ffff {
            proof {
                crate::text::lemma_utf8_size_prefix(v@, i + 1, k as int);
            }
            return None;
        }
        i += 1;
    }
    Some(n as i32)
}

/// Target and display text of wikilink content, unless it holds `[[` or has an empty target.
pub open spec fn wikilink_content(content: Seq<char>) -> Option<(Seq<char>, Option<Seq<char>>)> {
    if find_pair(content, 0, '[', '[') is Some {
        None
    } else {
        let (target, display) = match find_ch(content, 0, '|') {
            Some(b) => (trim(content.take(b)), non_empty(content.skip(b + 1))),
            None => (trim(content), None),
        };
        if target.len() == 0 {
            None
        } else {
            Some((target, display))
        }
    }
}

/// Wikilinks of `body` from character `cursor` on.
pub open spec fn wikilinks_from(body: Seq<char>, cursor: int) -> Seq<RefView>
    decreases body.len() - cursor,
{
    if cursor < 0 || cursor > body.len() {
        Seq::empty()
    } else {
        match find_pair(body, cursor, '[', '[') {
            None => Seq::empty(),
            Some(start) => match find_pair(body, start + 2, ']', ']') {
                None => Seq::empty(),
                Some(ce) => {
                    proof {
                        lemma_find_pair(body, cursor, '[', '[');
                        lemma_find_pair(body, start + 2, ']', ']');
                    }
                    let end = ce + 2;
                    let here = match wikilink_content(body.subrange(start + 2, ce)) {
                        Some((t, d)) => spanned(
                            body,
                            RefView {
                                raw_target: t,
                                display_text: d,
                                kind: ObjectReferenceKind::Wikilink,
                                span_start: 0,
                                span_end: 0,
                                target_object_id: None,
                                target_workspace_id: None,
                            },
                            start,
                            end,
                        ),
                        None => Seq::empty(),
                    };
                    here + wikilinks_from(body, end)
                },
            },
        }
    }
}

/// Copies `v[from..to]`.
fn copy_range(v: &Vec<char>, from: usize, to: usize) -> (r: Vec<char>)
    requires
        from <= to <= v@.len(),
    ensures
        r@ == v@.subrange(from as int, to as int),
{
    let mut r: Vec<char> = Vec::new();
    let mut i = from;
    while i < to
        invariant
            from <= i <= to <= v@.len(),
            r@ == v@.subrange(from as int, i as int),
        decreases to - i,
    {
        r.push(v[i]);
        assert(v@.subrange(from as int, i + 1) =~= v@.subrange(from as int, i as int).push(v@[i as int]));
        i += 1;
    }
    r
}

/// Target and display text of wikilink content (see [`wikilink_content`]).
fn wikilink_parts(content: &Vec<char>) -> (r: Option<(String, Option<String>)>)
    ensures
        match wikilink_content(content@) {
            Some((t, d)) => r matches Some((a, b)) && a@ == t && opt_text(b) == d,
            None => r is None,
        },
{
    if find_pair_from(content, 0, '[', '[').is_some() {
        return None;
    }
    let n = content.len();
    let (target, display) = match find_ch_from(content, 0, '|') {
        Some(b) => {
            proof {
                lemma_find_ch(content@, 0, '|');
            }
            let t = trimmed_string(content, 0, b);
            assert(content@.subrange(0, b as int) =~= content@.take(b as int));
            let rest = string_of_range(content, b + 1, n);
            assert(content@.subrange(b + 1, content@.len() as int) =~= content@.skip(b + 1));
            (t, non_empty_owned(rest.as_str()))
        },
        None => {
            assert(content@.subrange(0, content@.len() as int) =~= content@);
            (trimmed_string(content, 0, content.len()), None)
        },
    };
    if target.as_str().is_empty() {
        None
    } else {
        Some((target, display))
    }
}

/// Adds a reference with the byte span of characters `[start, end)`, if it fits an `i32`.
fn push_reference(
    references: &mut Vec<ParsedObjectReference>,
    body: &Vec<char>,
    reference: ParsedObjectReference,
    start: usize,
    end: usize,
)
    requires
        start <= end <= body@.len(),
    ensures
        refs_view(final(references)@) == refs_view(old(references)@) + spanned(body@, ref_view(reference), start as int, end as int),
{
    let s = byte_offset(body, start);
    let e = byte_offset(body, end);
    match (s, e) {
        (Some(span_start), Some(span_end)) => {
            let ghost before = references@;
            let r = ParsedObjectReference { span_start, span_end, ..reference };
            references.push(r);
            assert(refs_view(references@) =~= refs_view(before) + seq![ref_view(r)]);
            assert(refs_view(references@) =~= refs_view(old(references)@) + spanned(body@, ref_view(reference), start as int, end as int));
        },
        _ => {
            assert(refs_view(references@) =~= refs_view(old(references)@) + Seq::<RefView>::empty());
        },
    }
}

/// Parses double-bracket wikilinks: `[[target]]` or `[[target|display]]`, outside nested `[[`.
pub fn parse_wikilinks(body: &str) -> (r: Vec<ParsedObjectReference>)
    ensures
        refs_view(r@) == wikilinks_from(body@, 0),
{
    let v = chars_of(body);
    let mut references: Vec<ParsedObjectReference> = Vec::new();
    let mut cursor: usize = 0;
    assert(refs_view(references@) + wikilinks_from(v@, 0) =~= wikilinks_from(v@, 0));
    loop
        invariant
            cursor <= v@.len(),
            v@ == body@,
            wikilinks_from(v@, 0) == refs_view(references@) + wikilinks_from(v@, cursor as int),
        decreases v@.len() - cursor,
    {
        proof {
            lemma_find_pair(v@, cursor as int, '[', '[');
        }
        let start = match find_pair_from(&v, cursor, '[', '[') {
            Some(s) => s,
            None => {
                assert(refs_view(references@) + Seq::<RefView>::empty() =~= refs_view(references@));
                return references;
            },
        };
        proof {
            lemma_find_pair(v@, start + 2, ']', ']');
        }
        let ce = match find_pair_from(&v, start + 2, ']', ']') {
            Some(c) => c,
            None => {
                assert(refs_view(references@) + Seq::<RefView>::empty() =~= refs_view(references@));
                return references;
            },
        };
        let end = ce + 2;
        let content = copy_range(&v, start + 2, ce);
        let ghost before = refs_view(references@);
        match wikilink_parts(&content) {
            Some((raw_target, display_text)) => {
                let reference = ParsedObjectReference {
                    raw_target,
                    display_text,
                    kind: ObjectReferenceKind::Wikilink,
                    span_start: 0,
                    span_end: 0,
                    target_object_id: None,
                    target_workspace_id: None,
                };
                push_reference(&mut references, &v, reference, start, end);
            },
            None => {
                assert(refs_view(references@) =~= before + Seq::<RefView>::empty());
            },
        }
        assert(before + (refs_view(references@).skip(before.len() as int) + wikilinks_from(v@, end as int))
            =~= refs_view(references@) + wikilinks_from(v@, end as int));
        cursor = end;
    }
}

/// The UUID that `v` spells when it is the whole value: not empty and without `/`.
pub open spec fn exact_uuid(v: Seq<char>) -> Option<u128> {
    if v.len() == 0 || v.contains('/') {
        None
    } else {
        uuid_of(v)
    }
}

/// Workspace and object IDs of a supported Kival URL: `kival://objects/<object>` or
/// `kival://workspaces/<workspace>/objects/<object>`.
pub open spec fn kival_destination(dest: Seq<char>) -> Option<(Option<u128>, u128)> {
    if "kival://objects/"@.is_prefix_of(dest) {
        match exact_uuid(dest.skip(16)) {
            Some(o) => Some((None, o)),
            None => None,
        }
    } else if "kival://workspaces/"@.is_prefix_of(dest) {
        let rest = dest.skip(19);
        match find_seq(rest, "/objects/"@, 0) {
            None => None,
            Some(i) => match (exact_uuid(rest.take(i)), exact_uuid(rest.skip(i + 9))) {
                (Some(w), Some(o)) => Some((Some(w), o)),
                _ => None,
            },
        }
    } else {
        None
    }
}

/// Parses a UUID only when the entire value is the UUID.
pub fn parse_exact_uuid(value: &str) -> (r: Option<u128>)
    ensures
        r == exact_uuid(value@),
{
    let v = chars_of(value);
    if v.len() == 0 {
        return None;
    }
    let mut i: usize = 0;
    while i < v.len()
        invariant
            i <= v@.len(),
            v@ == value@,
            forall|k: int| 0 <= k < i ==> v@[k] != '/',
        decreases v@.len() - i,
    {
        if v[i] == '/' {
            assert(value@.contains('/')) by {
                assert(value@[i as int] == '/');
            }
            return None;
        }
        i += 1;
    }
    parse_uuid(value)
}

/// Whether `v` starts with `p`.
fn starts_with(v: &Vec<char>, p: &str) -> (b: bool)
    ensures
        b == p@.is_prefix_of(v@),
{
    let pc = chars_of(p);
    if pc.len() > v.len() {
        return false;
    }
    let mut i: usize = 0;
    while i < pc.len()
        invariant
            i <= pc@.len() <= v@.len(),
            pc@ == p@,
            forall|k: int| 0 <= k < i ==> v@[k] == pc@[k],
        decreases pc@.len() - i,
    {
        if v[i] != pc[i] {
            assert(v@.subrange(0, pc@.len() as int)[i as int] != pc@[i as int]);
            return false;
        }
        i += 1;
    }
    assert(v@.subrange(0, pc@.len() as int) =~= pc@);
    true
}

/// Parses a supported Kival URL into optional workspace and object IDs.
pub fn parse_kival_destination(destination: &str) -> (r: Option<(Option<u128>, u128)>)
    ensures
        r == kival_destination(destination@),
{
    let d = chars_of(destination);
    let n = d.len();
    if starts_with(&d, "kival://objects/") {
        proof {
            reveal_strlit("kival://objects/");
        }
        let rest = string_of_range(&d, 16, n);
        assert(d@.subrange(16, n as int) =~= d@.skip(16));
        return match parse_exact_uuid(rest.as_str()) {
            Some(o) => Some((None, o)),
            None => None,
        };
    }
    if !starts_with(&d, "kival://workspaces/") {
        return None;
    }
    proof {
        reveal_strlit("kival://workspaces/");
    }
    let rest = copy_range(&d, 19, n);
    assert(d@.subrange(19, n as int) =~= d@.skip(19));
    let marker = chars_of("/objects/");
    proof {
        reveal_strlit("/objects/");
    }
    let i = match find_seq_from(&rest, &marker) {
        Some(i) => i,
        None => {
            return None;
        },
    };
    proof {
        lemma_find_seq(rest@, marker@, 0);
    }
    let ws = string_of_range(&rest, 0, i);
    assert(rest@.subrange(0, i as int) =~= rest@.take(i as int));
    let obj = string_of_range(&rest, i + 9, rest.len());
    assert(rest@.subrange(i + 9, rest@.len() as int) =~= rest@.skip(i + 9));
    let w = match parse_exact_uuid(ws.as_str()) {
        Some(w) => w,
        None => {
            return None;
        },
    };
    match parse_exact_uuid(obj.as_str()) {
        Some(o) => Some((Some(w), o)),
        None => None,
    }
}

/// Markdown links to supported Kival URLs in `body` from character `cursor` on.
pub open spec fn kival_links_from(body: Seq<char>, cursor: int) -> Seq<RefView>
    decreases body.len() - cursor,
{
    if cursor < 0 || cursor > body.len() {
        Seq::empty()
    } else {
        match find_ch(body, cursor, '[') {
            None => Seq::empty(),
            Some(start) => {
                proof {
                    lemma_find_ch(body, cursor, '[');
                }
                if start > 0 && body[start - 1] == '!' {
                    kival_links_from(body, start + 1)
                } else {
                    match find_ch(body, start + 1, ']') {
                        None => Seq::empty(),
                        Some(le) => {
                            proof {
                                lemma_find_ch(body, start + 1, ']');
                            }
                            if !(le + 1 < body.len() && body[le + 1] == '(') {
                                kival_links_from(body, le + 1)
                            } else {
                                match find_ch(body, le + 2, ')') {
                                    None => Seq::empty(),
                                    Some(de) => {
                                        proof {
                                            lemma_find_ch(body, le + 2, ')');
                                        }
                                        let end = de + 1;
                                        let dest = trim(body.subrange(le + 2, de));
                                        let here = match kival_destination(dest) {
                                            Some((w, o)) => spanned(
                                                body,
                                                RefView {
                                                    raw_target: dest,
                                                    display_text: non_empty(body.subrange(start + 1, le)),
                                                    kind: ObjectReferenceKind::KivalObjectLink,
                                                    span_start: 0,
                                                    span_end: 0,
                                                    target_object_id: Some(o),
                                                    target_workspace_id: w,
                                                },
                                                start,
                                                end,
                                            ),
                                            None => Seq::empty(),
                                        };
                                        here + kival_links_from(body, end)
                                    },
                                }
                            }
                        },
                    }
                }
            },
        }
    }
}

/// Parses Markdown links `[label](destination)` whose destination is a supported Kival URL;
/// an image `![..](..)` is no link.
pub fn parse_kival_links(body: &str) -> (r: Vec<ParsedObjectReference>)
    ensures
        refs_view(r@) == kival_links_from(body@, 0),
{
    let v = chars_of(body);
    let n = v.len();
    let mut references: Vec<ParsedObjectReference> = Vec::new();
    let mut cursor: usize = 0;
    assert(refs_view(references@) + kival_links_from(v@, 0) =~= kival_links_from(v@, 0));
    loop
        invariant
            cursor <= v@.len(),
            n == v@.len(),
            v@ == body@,
            kival_links_from(v@, 0) == refs_view(references@) + kival_links_from(v@, cursor as int),
        decreases v@.len() - cursor,
    {
        proof {
            lemma_find_ch(v@, cursor as int, '[');
        }
        let start = match find_ch_from(&v, cursor, '[') {
            Some(s) => s,
            None => {
                assert(refs_view(references@) + Seq::<RefView>::empty() =~= refs_view(references@));
                return references;
            },
        };
        if start > 0 && v[start - 1] == '!' {
            cursor = start + 1;
        } else {
            proof {
                lemma_find_ch(v@, start + 1, ']');
            }
            let le = match find_ch_from(&v, start + 1, ']') {
                Some(l) => l,
                None => {
                    assert(refs_view(references@) + Seq::<RefView>::empty() =~= refs_view(references@));
                    return references;
                },
            };
            if !(le + 1 < n && v[le + 1] == '(') {
                cursor = le + 1;
            } else {
                proof {
                    lemma_find_ch(v@, le + 2, ')');
                }
                let de = match find_ch_from(&v, le + 2, ')') {
                    Some(d) => d,
                    None => {
                        assert(refs_view(references@) + Seq::<RefView>::empty() =~= refs_view(references@));
                        return references;
                    },
                };
                let end = de + 1;
                let destination = trimmed_string(&v, le + 2, de);
                let ghost before = refs_view(references@);
                match parse_kival_destination(destination.as_str()) {
                    Some((target_workspace_id, target_object_id)) => {
                        let label = string_of_range(&v, start + 1, le);
                        let reference = ParsedObjectReference {
                            raw_target: destination,
                            display_text: non_empty_owned(label.as_str()),
                            kind: ObjectReferenceKind::KivalObjectLink,
                            span_start: 0,
                            span_end: 0,
                            target_object_id: Some(target_object_id),
                            target_workspace_id,
                        };
                        push_reference(&mut references, &v, reference, start, end);
                    },
                    None => {
                        assert(refs_view(references@) =~= before + Seq::<RefView>::empty());
                    },
                }
                assert(before + (refs_view(references@).skip(before.len() as int) + kival_links_from(v@, end as int))
                    =~= refs_view(references@) + kival_links_from(v@, end as int));
                cursor = end;
            }
        }
    }
}

/// Whether `x` comes before `y` by `(span_start, span_end)`.
pub open spec fn span_lt(x: RefView, y: RefView) -> bool {
    x.span_start < y.span_start || (x.span_start == y.span_start && x.span_end < y.span_end)
}

/// The references of `a` and `b` merged by span, those of `a` first among equal spans.
pub open spec fn merge_refs(a: Seq<RefView>, b: Seq<RefView>) -> Seq<RefView>
    decreases a.len() + b.len(),
{
    if a.len() == 0 {
        b
    } else if b.len() == 0 {
        a
    } else if span_lt(b[0], a[0]) {
        seq![b[0]] + merge_refs(a, b.drop_first())
    } else {
        seq![a[0]] + merge_refs(a.drop_first(), b)
    }
}

/// Whether the references come in span order.
pub open spec fn sorted_by_span(s: Seq<RefView>) -> bool {
    forall|i: int, j: int| 0 <= i < j < s.len() ==> !span_lt(#[trigger] s[j], #[trigger] s[i])
}

/// The references of `body` in span order: the stable sort by `(span_start, span_end)` of its
/// wikilinks followed by its Kival links, each of which already comes in span order.
pub open spec fn object_references(body: Seq<char>) -> Seq<RefView> {
    merge_refs(wikilinks_from(body, 0), kival_links_from(body, 0))
}

impl ParsedObjectReference {
    /// A copy of the reference.
    pub fn duplicate(&self) -> (r: Self)
        ensures
            ref_view(r) == ref_view(*self),
    {
        ParsedObjectReference {
            raw_target: self.raw_target.clone(),
            display_text: match &self.display_text {
                Some(d) => Some(d.clone()),
                None => None,
            },
            kind: self.kind,
            span_start: self.span_start,
            span_end: self.span_end,
            target_object_id: self.target_object_id,
            target_workspace_id: self.target_workspace_id,
        }
    }
}

/// Whether `x` comes before `y` by `(span_start, span_end)`.
fn span_before(x: &ParsedObjectReference, y: &ParsedObjectReference) -> (b: bool)
    ensures
        b == span_lt(ref_view(*x), ref_view(*y)),
{
    x.span_start < y.span_start || (x.span_start == y.span_start && x.span_end < y.span_end)
}

/// Merges two reference lists by span (see [`merge_refs`]).
fn merge_by_span(a: &Vec<ParsedObjectReference>, b: &Vec<ParsedObjectReference>) -> (r: Vec<ParsedObjectReference>)
    ensures
        refs_view(r@) == merge_refs(refs_view(a@), refs_view(b@)),
{
    let ghost av = refs_view(a@);
    let ghost bv = refs_view(b@);
    let mut out: Vec<ParsedObjectReference> = Vec::new();
    let mut i: usize = 0;
    let mut j: usize = 0;
    assert(av.skip(0) =~= av);
    assert(bv.skip(0) =~= bv);
    assert(refs_view(out@) + merge_refs(av, bv) =~= merge_refs(av, bv));
    while i < a.len() || j < b.len()
        invariant
            i <= a@.len(),
            j <= b@.len(),
            av == refs_view(a@),
            bv == refs_view(b@),
            merge_refs(av, bv) == refs_view(out@) + merge_refs(av.skip(i as int), bv.skip(j as int)),
        decreases a@.len() + b@.len() - i - j,
    {
        let ghost rest_a = av.skip(i as int);
        let ghost rest_b = bv.skip(j as int);
        let ghost before = refs_view(out@);
        let take_b = i >= a.len() || (j < b.len() && span_before(&b[j], &a[i]));
        if take_b {
            let x = b[j].duplicate();
            out.push(x);
            assert(rest_b[0] == ref_view(x));
            assert(rest_b.drop_first() =~= bv.skip(j + 1));
            if i >= a.len() {
                assert(rest_a.len() == 0);
                assert(merge_refs(rest_a, rest_b) == rest_b);
                assert(merge_refs(rest_a, rest_b.drop_first()) == rest_b.drop_first());
                assert(rest_b =~= seq![rest_b[0]] + rest_b.drop_first());
            }
            j += 1;
        } else {
            let x = a[i].duplicate();
            out.push(x);
            assert(rest_a[0] == ref_view(x));
            assert(rest_a.drop_first() =~= av.skip(i + 1));
            if j >= b.len() {
                assert(rest_b.len() == 0);
                assert(merge_refs(rest_a, rest_b) == rest_a);
                assert(merge_refs(rest_a.drop_first(), rest_b) == rest_a.drop_first());
                assert(rest_a =~= seq![rest_a[0]] + rest_a.drop_first());
            }
            i += 1;
        }
        assert(refs_view(out@) =~= before.push(refs_view(out@).last()));
        assert(merge_refs(av, bv) =~= refs_view(out@) + merge_refs(av.skip(i as int), bv.skip(j as int)));
    }
    assert(av.skip(i as int) =~= Seq::<RefView>::empty());
    assert(bv.skip(j as int) =~= Seq::<RefView>::empty());
    assert(refs_view(out@) + Seq::<RefView>::empty() =~= refs_view(out@));
    out
}

/// Parses supported internal object references from body text, in span order. Malformed
/// constructs are ignored; spans are UTF-8 byte offsets.
pub fn parse_object_references(body: &str) -> (r: Vec<ParsedObjectReference>)
    ensures
        refs_view(r@) == object_references(body@),
{
    let w = parse_wikilinks(body);
    let k = parse_kival_links(body);
    merge_by_span(&w, &k)
}

/// Each character takes at least one byte, so later characters start at later bytes.
pub proof fn lemma_byte_at_increases(body: Seq<char>, i: int, j: int)
    requires
        0 <= i <= j <= body.len(),
    ensures
        byte_at(body, i) + (j - i) <= byte_at(body, j),
    decreases j - i,
{
    if i < j {
        lemma_byte_at_increases(body, i, j - 1);
        lemma_utf8_size_take(body, j - 1);
    }
}

/// The merge holds the references of both lists, and no others.
pub proof fn lemma_merge_elements(a: Seq<RefView>, b: Seq<RefView>)
    ensures
        merge_refs(a, b).len() == a.len() + b.len(),
        merge_refs(a, b).to_multiset() =~= a.to_multiset().add(b.to_multiset()),
        forall|k: int| 0 <= k < merge_refs(a, b).len() ==> a.contains(#[trigger] merge_refs(a, b)[k]) || b.contains(
            merge_refs(a, b)[k],
        ),
    decreases a.len() + b.len(),
{
    broadcast use vstd::seq_lib::group_to_multiset_ensures;
    let m = merge_refs(a, b);
    if a.len() == 0 {
        assert(a.to_multiset() =~= Multiset::empty());
    } else if b.len() == 0 {
        assert(b.to_multiset() =~= Multiset::empty());
    } else if span_lt(b[0], a[0]) {
        let rest = merge_refs(a, b.drop_first());
        lemma_merge_elements(a, b.drop_first());
        assert(m == seq![b[0]] + rest);
        assert(m =~= rest.insert(0, b[0]));
        assert(b =~= b.drop_first().insert(0, b[0]));
        assert forall|k: int| 0 <= k < m.len() implies a.contains(#[trigger] m[k]) || b.contains(m[k]) by {
            if k == 0 {
                assert(b[0] == m[0]);
            } else {
                assert(m[k] == rest[k - 1]);
                if b.drop_first().contains(rest[k - 1]) {
                    let t = choose|t: int| 0 <= t < b.drop_first().len() && b.drop_first()[t] == rest[k - 1];
                    assert(b[t + 1] == rest[k - 1]);
                }
            }
        }
    } else {
        let rest = merge_refs(a.drop_first(), b);
        lemma_merge_elements(a.drop_first(), b);
        assert(m == seq![a[0]] + rest);
        assert(m =~= rest.insert(0, a[0]));
        assert(a =~= a.drop_first().insert(0, a[0]));
        assert forall|k: int| 0 <= k < m.len() implies a.contains(#[trigger] m[k]) || b.contains(m[k]) by {
            if k == 0 {
                assert(a[0] == m[0]);
            } else {
                assert(m[k] == rest[k - 1]);
                if a.drop_first().contains(rest[k - 1]) {
                    let t = choose|t: int| 0 <= t < a.drop_first().len() && a.drop_first()[t] == rest[k - 1];
                    assert(a[t + 1] == rest[k - 1]);
                }
            }
        }
    }
}

/// Merging two lists in span order gives a list in span order.
pub proof fn lemma_merge_sorted(a: Seq<RefView>, b: Seq<RefView>)
    requires
        sorted_by_span(a),
        sorted_by_span(b),
    ensures
        sorted_by_span(merge_refs(a, b)),
    decreases a.len() + b.len(),
{
    let m = merge_refs(a, b);
    if a.len() == 0 || b.len() == 0 {
    } else if span_lt(b[0], a[0]) {
        let bd = b.drop_first();
        let rest = merge_refs(a, bd);
        assert(sorted_by_span(bd)) by {
            assert forall|i: int, j: int| 0 <= i < j < bd.len() implies !span_lt(#[trigger] bd[j], #[trigger] bd[i]) by {
                assert(bd[j] == b[j + 1] && bd[i] == b[i + 1]);
            }
        }
        lemma_merge_sorted(a, bd);
        lemma_merge_elements(a, bd);
        assert forall|i: int, j: int| 0 <= i < j < m.len() implies !span_lt(#[trigger] m[j], #[trigger] m[i]) by {
            if i == 0 {
                let x = rest[j - 1];
                assert(m[j] == x);
                if a.contains(x) {
                    let t = choose|t: int| 0 <= t < a.len() && a[t] == x;
                    if t > 0 {
                        assert(!span_lt(a[t], a[0]));
                    }
                } else {
                    let t = choose|t: int| 0 <= t < bd.len() && bd[t] == x;
                    assert(bd[t] == b[t + 1]);
                    assert(!span_lt(b[t + 1], b[0]));
                }
            } else {
                assert(m[i] == rest[i - 1] && m[j] == rest[j - 1]);
            }
        }
    } else {
        let ad = a.drop_first();
        let rest = merge_refs(ad, b);
        assert(sorted_by_span(ad)) by {
            assert forall|i: int, j: int| 0 <= i < j < ad.len() implies !span_lt(#[trigger] ad[j], #[trigger] ad[i]) by {
                assert(ad[j] == a[j + 1] && ad[i] == a[i + 1]);
            }
        }
        lemma_merge_sorted(ad, b);
        lemma_merge_elements(ad, b);
        assert forall|i: int, j: int| 0 <= i < j < m.len() implies !span_lt(#[trigger] m[j], #[trigger] m[i]) by {
            if i == 0 {
                let x = rest[j - 1];
                assert(m[j] == x);
                if ad.contains(x) {
                    let t = choose|t: int| 0 <= t < ad.len() && ad[t] == x;
                    assert(ad[t] == a[t + 1]);
                    assert(!span_lt(a[t + 1], a[0]));
                } else {
                    let t = choose|t: int| 0 <= t < b.len() && b[t] == x;
                    if t > 0 {
                        assert(!span_lt(b[t], b[0]));
                    }
                }
            } else {
                assert(m[i] == rest[i - 1] && m[j] == rest[j - 1]);
            }
        }
    }
}

/// Every reference found from `cursor` on starts at or after `cursor`'s byte, and a
/// reference's span is not empty.
pub open spec fn refs_after(s: Seq<RefView>, from: int) -> bool {
    forall|k: int| 0 <= k < s.len() ==> from <= (#[trigger] s[k]).span_start < s[k].span_end
}

/// A reference followed by references that start at or after its end is in span order
/// when the rest is.
proof fn lemma_prepend_sorted(here: Seq<RefView>, rest: Seq<RefView>, start: int, end: int, next: int)
    requires
        here.len() <= 1,
        here.len() == 1 ==> here[0].span_start == start && here[0].span_end == end,
        start < end <= next,
        sorted_by_span(rest),
        refs_after(rest, next),
    ensures
        sorted_by_span(here + rest),
        refs_after(here + rest, start),
{
    let s = here + rest;
    assert forall|i: int, j: int| 0 <= i < j < s.len() implies !span_lt(#[trigger] s[j], #[trigger] s[i]) by {
        if i < here.len() {
            assert(s[j] == rest[j - here.len()]);
        } else {
            assert(s[i] == rest[i - here.len()] && s[j] == rest[j - here.len()]);
        }
    }
    assert forall|k: int| 0 <= k < s.len() implies start <= (#[trigger] s[k]).span_start < s[k].span_end by {
        if k >= here.len() {
            assert(s[k] == rest[k - here.len()]);
        }
    }
}

/// Wikilinks come in span order, after the cursor.
pub proof fn lemma_wikilinks_sorted(body: Seq<char>, cursor: int)
    requires
        0 <= cursor <= body.len(),
    ensures
        sorted_by_span(wikilinks_from(body, cursor)),
        refs_after(wikilinks_from(body, cursor), byte_at(body, cursor)),
    decreases body.len() - cursor,
{
    lemma_find_pair(body, cursor, '[', '[');
    match find_pair(body, cursor, '[', '[') {
        None => {},
        Some(start) => {
            lemma_find_pair(body, start + 2, ']', ']');
            match find_pair(body, start + 2, ']', ']') {
                None => {},
                Some(ce) => {
                    let end = ce + 2;
                    lemma_wikilinks_sorted(body, end);
                    lemma_byte_at_increases(body, cursor, start);
                    lemma_byte_at_increases(body, start, end);
                    let here = match wikilink_content(body.subrange(start + 2, ce)) {
                        Some((t, d)) => spanned(
                            body,
                            RefView {
                                raw_target: t,
                                display_text: d,
                                kind: ObjectReferenceKind::Wikilink,
                                span_start: 0,
                                span_end: 0,
                                target_object_id: None,
                                target_workspace_id: None,
                            },
                            start,
                            end,
                        ),
                        None => Seq::empty(),
                    };
                    lemma_prepend_sorted(here, wikilinks_from(body, end), byte_at(body, start), byte_at(body, end), byte_at(body, end));
                    assert(wikilinks_from(body, cursor) == here + wikilinks_from(body, end));
                },
            }
        },
    }
}

/// Kival links come in span order, after the cursor.
pub proof fn lemma_kival_links_sorted(body: Seq<char>, cursor: int)
    requires
        0 <= cursor <= body.len(),
    ensures
        sorted_by_span(kival_links_from(body, cursor)),
        refs_after(kival_links_from(body, cursor), byte_at(body, cursor)),
    decreases body.len() - cursor,
{
    lemma_find_ch(body, cursor, '[');
    match find_ch(body, cursor, '[') {
        None => {},
        Some(start) => {
            lemma_byte_at_increases(body, cursor, start);
            if start > 0 && body[start - 1] == '!' {
                lemma_kival_links_sorted(body, start + 1);
                lemma_byte_at_increases(body, cursor, start + 1);
            } else {
                lemma_find_ch(body, start + 1, ']');
                match find_ch(body, start + 1, ']') {
                    None => {},
                    Some(le) => {
                        if !(le + 1 < body.len() && body[le + 1] == '(') {
                            lemma_kival_links_sorted(body, le + 1);
                            lemma_byte_at_increases(body, cursor, le + 1);
                        } else {
                            lemma_find_ch(body, le + 2, ')');
                            match find_ch(body, le + 2, ')') {
                                None => {},
                                Some(de) => {
                                    let end = de + 1;
                                    lemma_kival_links_sorted(body, end);
                                    lemma_byte_at_increases(body, start, end);
                                    let dest = trim(body.subrange(le + 2, de));
                                    let here = match kival_destination(dest) {
                                        Some((w, o)) => spanned(
                                            body,
                                            RefView {
                                                raw_target: dest,
                                                display_text: non_empty(body.subrange(start + 1, le)),
                                                kind: ObjectReferenceKind::KivalObjectLink,
                                                span_start: 0,
                                                span_end: 0,
                                                target_object_id: Some(o),
                                                target_workspace_id: w,
                                            },
                                            start,
                                            end,
                                        ),
                                        None => Seq::empty(),
                                    };
                                    lemma_prepend_sorted(here, kival_links_from(body, end), byte_at(body, start), byte_at(body, end), byte_at(body, end));
                                    assert(kival_links_from(body, cursor) == here + kival_links_from(body, end));
                                },
                            }
                        }
                    },
                }
            }
        },
    }
}

/// The parsed references of a body come in span order, and are exactly its wikilinks and its
/// Kival links.
pub proof fn object_references_sorted(body: Seq<char>)
    ensures
        sorted_by_span(object_references(body)),
        object_references(body).to_multiset() =~= wikilinks_from(body, 0).to_multiset().add(
            kival_links_from(body, 0).to_multiset(),
        ),
{
    lemma_wikilinks_sorted(body, 0);
    lemma_kival_links_sorted(body, 0);
    lemma_merge_sorted(wikilinks_from(body, 0), kival_links_from(body, 0));
    lemma_merge_elements(wikilinks_from(body, 0), kival_links_from(body, 0));
}

/// Whether a reference's span runs from one character boundary of `body` to a later one.
pub open spec fn char_span(body: Seq<char>, r: RefView) -> bool {
    exists|a: int, b: int|
        0 <= a < b <= body.len() && r.span_start == #[trigger] byte_at(body, a) && r.span_end == #[trigger] byte_at(
            body,
            b,
        )
}

/// Whether every span of `refs` lies on character boundaries of `body`, start before end.
pub open spec fn spans_on_chars(body: Seq<char>, refs: Seq<RefView>) -> bool {
    forall|k: int|
        0 <= k < refs.len() ==> char_span(body, #[trigger] refs[k]) && refs[k].span_start < refs[k].span_end
}

/// A reference spanned over characters `[start, end)` lies on character boundaries.
proof fn lemma_spanned_on_chars(body: Seq<char>, r: RefView, start: int, end: int)
    requires
        0 <= start < end <= body.len(),
    ensures
        spans_on_chars(body, spanned(body, r, start, end)),
{
    lemma_byte_at_increases(body, start, end);
    let sp = spanned(body, r, start, end);
    if sp.len() > 0 {
        assert(sp[0].span_start == byte_at(body, start));
        assert(sp[0].span_end == byte_at(body, end));
        assert(char_span(body, sp[0]));
    }
}

/// Concatenating lists whose spans lie on character boundaries keeps them there.
proof fn lemma_spans_concat(body: Seq<char>, a: Seq<RefView>, b: Seq<RefView>)
    requires
        spans_on_chars(body, a),
        spans_on_chars(body, b),
    ensures
        spans_on_chars(body, a + b),
{
    assert forall|k: int| 0 <= k < (a + b).len() implies char_span(body, #[trigger] (a + b)[k]) && (a
        + b)[k].span_start < (a + b)[k].span_end by {
        if k < a.len() {
            assert((a + b)[k] == a[k]);
        } else {
            assert((a + b)[k] == b[k - a.len()]);
        }
    }
}

/// Wikilink spans lie on character boundaries.
proof fn lemma_wikilink_spans(body: Seq<char>, cursor: int)
    requires
        0 <= cursor <= body.len(),
    ensures
        spans_on_chars(body, wikilinks_from(body, cursor)),
    decreases body.len() - cursor,
{
    lemma_find_pair(body, cursor, '[', '[');
    match find_pair(body, cursor, '[', '[') {
        None => {},
        Some(start) => {
            lemma_find_pair(body, start + 2, ']', ']');
            match find_pair(body, start + 2, ']', ']') {
                None => {},
                Some(ce) => {
                    let end = ce + 2;
                    lemma_wikilink_spans(body, end);
                    let here = match wikilink_content(body.subrange(start + 2, ce)) {
                        Some((t, d)) => spanned(
                            body,
                            RefView {
                                raw_target: t,
                                display_text: d,
                                kind: ObjectReferenceKind::Wikilink,
                                span_start: 0,
                                span_end: 0,
                                target_object_id: None,
                                target_workspace_id: None,
                            },
                            start,
                            end,
                        ),
                        None => Seq::empty(),
                    };
                    match wikilink_content(body.subrange(start + 2, ce)) {
                        Some((t, d)) => {
                            lemma_spanned_on_chars(
                                body,
                                RefView {
                                    raw_target: t,
                                    display_text: d,
                                    kind: ObjectReferenceKind::Wikilink,
                                    span_start: 0,
                                    span_end: 0,
                                    target_object_id: None,
                                    target_workspace_id: None,
                                },
                                start,
                                end,
                            );
                        },
                        None => {},
                    }
                    lemma_spans_concat(body, here, wikilinks_from(body, end));
                    assert(wikilinks_from(body, cursor) == here + wikilinks_from(body, end));
                },
            }
        },
    }
}

/// Kival link spans lie on character boundaries.
proof fn lemma_kival_link_spans(body: Seq<char>, cursor: int)
    requires
        0 <= cursor <= body.len(),
    ensures
        spans_on_chars(body, kival_links_from(body, cursor)),
    decreases body.len() - cursor,
{
    lemma_find_ch(body, cursor, '[');
    match find_ch(body, cursor, '[') {
        None => {},
        Some(start) => {
            if start > 0 && body[start - 1] == '!' {
                lemma_kival_link_spans(body, start + 1);
            } else {
                lemma_find_ch(body, start + 1, ']');
                match find_ch(body, start + 1, ']') {
                    None => {},
                    Some(le) => {
                        if !(le + 1 < body.len() && body[le + 1] == '(') {
                            lemma_kival_link_spans(body, le + 1);
                        } else {
                            lemma_find_ch(body, le + 2, ')');
                            match find_ch(body, le + 2, ')') {
                                None => {},
                                Some(de) => {
                                    let end = de + 1;
                                    lemma_kival_link_spans(body, end);
                                    let dest = trim(body.subrange(le + 2, de));
                                    let here = match kival_destination(dest) {
                                        Some((w, o)) => spanned(
                                            body,
                                            RefView {
                                                raw_target: dest,
                                                display_text: non_empty(body.subrange(start + 1, le)),
                                                kind: ObjectReferenceKind::KivalObjectLink,
                                                span_start: 0,
                                                span_end: 0,
                                                target_object_id: Some(o),
                                                target_workspace_id: w,
                                            },
                                            start,
                                            end,
                                        ),
                                        None => Seq::empty(),
                                    };
                                    match kival_destination(dest) {
                                        Some((w, o)) => {
                                            lemma_spanned_on_chars(
                                                body,
                                                RefView {
                                                    raw_target: dest,
                                                    display_text: non_empty(body.subrange(start + 1, le)),
                                                    kind: ObjectReferenceKind::KivalObjectLink,
                                                    span_start: 0,
                                                    span_end: 0,
                                                    target_object_id: Some(o),
                                                    target_workspace_id: w,
                                                },
                                                start,
                                                end,
                                            );
                                        },
                                        None => {},
                                    }
                                    lemma_spans_concat(body, here, kival_links_from(body, end));
                                    assert(kival_links_from(body, cursor) == here + kival_links_from(body, end));
                                },
                            }
                        }
                    },
                }
            }
        },
    }
}

/// Every parsed reference spans a byte range of the body that starts and ends on character
/// boundaries, its start before its end.
pub proof fn reference_spans_lie_on_character_boundaries(body: Seq<char>)
    ensures
        spans_on_chars(body, object_references(body)),
{
    lemma_wikilink_spans(body, 0);
    lemma_kival_link_spans(body, 0);
    let w = wikilinks_from(body, 0);
    let k = kival_links_from(body, 0);
    lemma_merge_elements(w, k);
    let m = merge_refs(w, k);
    assert forall|i: int| 0 <= i < m.len() implies char_span(body, #[trigger] m[i]) && m[i].span_start
        < m[i].span_end by {
        if w.contains(m[i]) {
            let t = choose|t: int| 0 <= t < w.len() && w[t] == m[i];
            assert(char_span(body, w[t]));
        } else {
            let t = choose|t: int| 0 <= t < k.len() && k[t] == m[i];
            assert(char_span(body, k[t]));
        }
    }
}

/// Whether text `a` comes before `b` in the order of `String`: by code points, a proper prefix
/// first.
pub open spec fn text_lt(a: Seq<char>, b: Seq<char>) -> bool
    decreases a.len(),
{
    if a.len() == 0 {
        b.len() > 0
    } else if b.len() == 0 {
        false
    } else if a[0] != b[0] {
        a[0] < b[0]
    } else {
        text_lt(a.drop_first(), b.drop_first())
    }
}

/// No text comes before itself.
pub proof fn lemma_text_lt_irreflexive(a: Seq<char>)
    ensures
        !text_lt(a, a),
    decreases a.len(),
{
    if a.len() > 0 {
        lemma_text_lt_irreflexive(a.drop_first());
    }
}

/// The order of texts is transitive.
pub proof fn lemma_text_lt_transitive(a: Seq<char>, b: Seq<char>, c: Seq<char>)
    requires
        text_lt(a, b),
        text_lt(b, c),
    ensures
        text_lt(a, c),
    decreases a.len(),
{
    if a.len() > 0 && b.len() > 0 && c.len() > 0 && a[0] == b[0] && b[0] == c[0] {
        lemma_text_lt_transitive(a.drop_first(), b.drop_first(), c.drop_first());
    }
}

/// Two different texts are ordered one way or the other.
pub proof fn lemma_text_lt_total(a: Seq<char>, b: Seq<char>)
    ensures
        a == b || text_lt(a, b) || text_lt(b, a),
    decreases a.len(),
{
    if a.len() > 0 && b.len() > 0 && a[0] == b[0] {
        lemma_text_lt_total(a.drop_first(), b.drop_first());
        if a.drop_first() == b.drop_first() {
            assert(a =~= seq![a[0]] + a.drop_first());
            assert(b =~= seq![b[0]] + b.drop_first());
        }
    } else if a.len() == 0 && b.len() == 0 {
        assert(a =~= b);
    }
}

/// Whether text `a` comes before `b` (`String`'s `<`).
pub fn text_less(a: &str, b: &str) -> (r: bool)
    ensures
        r == text_lt(a@, b@),
{
    let x = chars_of(a);
    let y = chars_of(b);
    let mut i: usize = 0;
    assert(x@.skip(0) =~= x@);
    assert(y@.skip(0) =~= y@);
    while i < x.len() && i < y.len()
        invariant
            i <= x@.len(),
            i <= y@.len(),
            x@ == a@,
            y@ == b@,
            text_lt(x@, y@) == text_lt(x@.skip(i as int), y@.skip(i as int)),
        decreases x@.len() - i,
    {
        if x[i] != y[i] {
            assert(x@.skip(i as int)[0] == x@[i as int]);
            assert(y@.skip(i as int)[0] == y@[i as int]);
            return x[i] < y[i];
        }
        assert(x@.skip(i as int).drop_first() =~= x@.skip(i + 1));
        assert(y@.skip(i as int).drop_first() =~= y@.skip(i + 1));
        i += 1;
    }
    i < y.len()
}

/// Whether the strings come in strictly increasing order.
pub open spec fn strictly_sorted(v: Seq<String>) -> bool {
    forall|i: int, j: int| 0 <= i < j < v.len() ==> text_lt((#[trigger] v[i])@, (#[trigger] v[j])@)
}

/// Inserts `t` into a strictly sorted list unless it is already there.
fn insert_sorted(v: &mut Vec<String>, t: String)
    requires
        strictly_sorted(old(v)@),
    ensures
        strictly_sorted(final(v)@),
        string_set(final(v)@) == string_set(old(v)@).insert(t@),
{
    let mut p: usize = 0;
    while p < v.len() && text_less(v[p].as_str(), t.as_str())
        invariant
            p <= v@.len(),
            forall|k: int| 0 <= k < p ==> text_lt((#[trigger] v@[k])@, t@),
        decreases v@.len() - p,
    {
        p += 1;
    }
    if p < v.len() && str_eq(v[p].as_str(), t.as_str()) {
        assert(string_set(v@).insert(t@) =~= string_set(v@)) by {
            assert(v@[p as int]@ == t@);
        }
        return;
    }
    proof {
        if p < v@.len() {
            lemma_text_lt_total(v@[p as int]@, t@);
        }
    }
    let ghost old_v = v@;
    v.insert(p, t);
    proof {
        assert forall|i: int, j: int| 0 <= i < j < v@.len() implies text_lt((#[trigger] v@[i])@, (#[trigger] v@[j])@) by {
            if j < p {
                assert(v@[i] == old_v[i] && v@[j] == old_v[j]);
            } else if j == p {
                assert(v@[i] == old_v[i]);
            } else if i == p {
                assert(v@[j] == old_v[j - 1]);
                if j - 1 > p {
                    assert(text_lt(old_v[p as int]@, old_v[j - 1]@));
                    lemma_text_lt_transitive(t@, old_v[p as int]@, old_v[j - 1]@);
                }
            } else if i < p {
                assert(v@[i] == old_v[i] && v@[j] == old_v[j - 1]);
                assert(text_lt(old_v[i]@, t@));
                if j - 1 > p {
                    assert(text_lt(old_v[p as int]@, old_v[j - 1]@));
                    lemma_text_lt_transitive(t@, old_v[p as int]@, old_v[j - 1]@);
                }
                lemma_text_lt_transitive(old_v[i]@, t@, old_v[j - 1]@);
            } else {
                assert(v@[i] == old_v[i - 1] && v@[j] == old_v[j - 1]);
            }
        }
        let a = string_set(v@);
        let b = string_set(old_v).insert(t@);
        assert forall|x: Seq<char>| a.contains(x) implies b.contains(x) by {
            let i = choose|i: int| 0 <= i < v@.len() && #[trigger] v@[i]@ == x;
            if i < p {
                assert(old_v[i]@ == x);
            } else if i > p {
                assert(old_v[i - 1]@ == x);
            }
        }
        assert forall|x: Seq<char>| b.contains(x) implies a.contains(x) by {
            if x == t@ {
                assert(v@[p as int]@ == x);
            } else {
                let i = choose|i: int| 0 <= i < old_v.len() && #[trigger] old_v[i]@ == x;
                if i < p {
                    assert(v@[i]@ == x);
                } else {
                    assert(v@[i + 1]@ == x);
                }
            }
        }
        assert(a =~= b);
    }
}

/// The trimmed, non-empty titles among `titles`.
pub open spec fn title_set(titles: Seq<String>) -> Set<Seq<char>> {
    Set::new(|x: Seq<char>| exists|i: int| 0 <= i < titles.len() && trim((#[trigger] titles[i])@) == x && x.len() > 0)
}

/// Returns normalized titles in their global lock order: trimmed, without empty ones, without
/// repeats, sorted.
pub fn normalized_titles(titles: &Vec<String>) -> (r: Vec<String>)
    ensures
        strictly_sorted(r@),
        string_set(r@) == title_set(titles@),
{
    let mut out: Vec<String> = Vec::new();
    let mut i: usize = 0;
    assert(string_set(out@) =~= title_set(titles@.take(0)));
    while i < titles.len()
        invariant
            i <= titles@.len(),
            strictly_sorted(out@),
            string_set(out@) == title_set(titles@.take(i as int)),
        decreases titles@.len() - i,
    {
        let t = trim_string(titles[i].as_str());
        let ghost before = string_set(out@);
        if !t.as_str().is_empty() {
            insert_sorted(&mut out, t);
        }
        proof {
            let now = title_set(titles@.take(i + 1));
            let prev = title_set(titles@.take(i as int));
            assert forall|x: Seq<char>| now.contains(x) implies string_set(out@).contains(x) by {
                let k = choose|k: int| 0 <= k < i + 1 && trim((#[trigger] titles@.take(i + 1)[k])@) == x && x.len() > 0;
                if k < i {
                    assert(titles@.take(i as int)[k] == titles@.take(i + 1)[k]);
                    assert(prev.contains(x));
                }
            }
            assert forall|x: Seq<char>| string_set(out@).contains(x) implies now.contains(x) by {
                if before.contains(x) {
                    let k = choose|k: int| 0 <= k < i && trim((#[trigger] titles@.take(i as int)[k])@) == x && x.len() > 0;
                    assert(titles@.take(i + 1)[k] == titles@.take(i as int)[k]);
                } else {
                    assert(titles@.take(i + 1)[i as int] == titles@[i as int]);
                }
            }
            assert(string_set(out@) =~= now);
        }
        i += 1;
    }
    assert(titles@.take(titles@.len() as int) =~= titles@);
    out
}

/// The targets of the wikilinks among `references`.
pub open spec fn wikilink_title_set(references: Seq<ParsedObjectReference>) -> Set<Seq<char>> {
    Set::new(
        |x: Seq<char>|
            exists|i: int|
                0 <= i < references.len() && (#[trigger] references[i]).kind == ObjectReferenceKind::Wikilink
                    && references[i].raw_target@ == x,
    )
}

/// Returns the targets of title-based references in their global lock order, without repeats.
pub fn wikilink_titles(references: &Vec<ParsedObjectReference>) -> (r: Vec<String>)
    ensures
        strictly_sorted(r@),
        string_set(r@) == wikilink_title_set(references@),
{
    let mut out: Vec<String> = Vec::new();
    let mut i: usize = 0;
    assert(string_set(out@) =~= wikilink_title_set(references@.take(0)));
    while i < references.len()
        invariant
            i <= references@.len(),
            strictly_sorted(out@),
            string_set(out@) == wikilink_title_set(references@.take(i as int)),
        decreases references@.len() - i,
    {
        let ghost before = string_set(out@);
        if references[i].kind == ObjectReferenceKind::Wikilink {
            insert_sorted(&mut out, references[i].raw_target.clone());
        }
        proof {
            let now = wikilink_title_set(references@.take(i + 1));
            let prev = wikilink_title_set(references@.take(i as int));
            assert forall|x: Seq<char>| now.contains(x) implies string_set(out@).contains(x) by {
                let k = choose|k: int|
                    0 <= k < i + 1 && (#[trigger] references@.take(i + 1)[k]).kind == ObjectReferenceKind::Wikilink
                        && references@.take(i + 1)[k].raw_target@ == x;
                if k < i {
                    assert(references@.take(i as int)[k] == references@.take(i + 1)[k]);
                    assert(prev.contains(x));
                }
            }
            assert forall|x: Seq<char>| string_set(out@).contains(x) implies now.contains(x) by {
                if before.contains(x) {
                    let k = choose|k: int|
                        0 <= k < i && (#[trigger] references@.take(i as int)[k]).kind == ObjectReferenceKind::Wikilink
                            && references@.take(i as int)[k].raw_target@ == x;
                    assert(references@.take(i + 1)[k] == references@.take(i as int)[k]);
                } else {
                    assert(references@.take(i + 1)[i as int] == references@[i as int]);
                }
            }
            assert(string_set(out@) =~= now);
        }
        i += 1;
    }
    assert(references@.take(references@.len() as int) =~= references@);
    out
}

/// Counts produced by derived-reference recomputation.
#[derive(Debug, Clone, Copy, PartialEq, Eq)]
pub struct ObjectReferenceUpdate {
    /// Number of references resolved to objects.
    pub resolved_count: usize,
    /// Number of references that remain unresolved.
    pub unresolved_count: usize,
    /// Number of wikilinks that are ambiguous because multiple active objects match.
    pub ambiguous_count: usize,
    /// Number of old reference rows marked stale.
    pub stale_count: usize,
}

/// Whether recomputation changed or found any references.
pub open spec fn update_changed(u: ObjectReferenceUpdate) -> bool {
    u.resolved_count > 0 || u.unresolved_count > 0 || u.ambiguous_count > 0 || u.stale_count > 0
}

impl ObjectReferenceUpdate {
    /// Returns whether recomputation changed or found any references worth recording.
    pub fn changed(self) -> (b: bool)
        ensures
            b == update_changed(self),
    {
        self.resolved_count > 0 || self.unresolved_count > 0 || self.ambiguous_count > 0 || self.stale_count > 0
    }
}

/// Counts produced by event-driven wikilink re-resolution.
#[derive(Debug, Clone, Copy, Default, PartialEq, Eq)]
pub struct ReferenceReresolutionSummary {
    /// Total reference rows changed.
    pub updated_count: usize,
    /// Changed rows that are now resolved.
    pub resolved_count: usize,
    /// Changed rows that are now unresolved.
    pub unresolved_count: usize,
    /// Changed rows that are now ambiguous.
    pub ambiguous_count: usize,
}

impl ReferenceReresolutionSummary {
    /// Returns whether any reference row changed.
    pub fn changed(self) -> (b: bool)
        ensures
            b == (self.updated_count > 0),
    {
        self.updated_count > 0
    }
}

/// Result of maintaining outgoing references and affected incoming wikilinks.
#[derive(Debug, Clone, Copy, PartialEq, Eq)]
pub struct ObjectReferenceMaintenance {
    /// Result of rebuilding references for the current source version.
    pub reference_update: ObjectReferenceUpdate,
    /// Result of re-resolving wikilinks affected by title namespace changes.
    pub reresolution: ReferenceReresolutionSummary,
}

/// Resolution state for a title-based wikilink.
#[derive(Debug, Clone, Copy, PartialEq, Eq)]
pub enum WikilinkResolution {
    /// Exactly one active object matches.
    Resolved(u128),
    /// No active object matches.
    Unresolved,
    /// More than one active object matches.
    Ambiguous,
}

/// The stored status of a resolution.
pub open spec fn resolution_status(r: WikilinkResolution) -> Seq<char> {
    match r {
        WikilinkResolution::Resolved(_) => "resolved"@,
        WikilinkResolution::Unresolved => "unresolved"@,
        WikilinkResolution::Ambiguous => "ambiguous"@,
    }
}

impl WikilinkResolution {
    /// The resolution of a title from the active objects that bear it (at most two are asked
    /// for): none is unresolved, one resolves, more are ambiguous.
    pub fn from_matches(matches: &Vec<u128>) -> (r: Self)
        ensures
            matches@.len() == 0 ==> r == WikilinkResolution::Unresolved,
            matches@.len() == 1 ==> r == WikilinkResolution::Resolved(matches@[0]),
            matches@.len() >= 2 ==> r == WikilinkResolution::Ambiguous,
    {
        if matches.len() == 0 {
            WikilinkResolution::Unresolved
        } else if matches.len() == 1 {
            WikilinkResolution::Resolved(matches[0])
        } else {
            WikilinkResolution::Ambiguous
        }
    }

    /// Returns the target object ID, when uniquely resolved.
    pub fn target_object_id(self) -> (r: Option<u128>)
        ensures
            r == match self {
                WikilinkResolution::Resolved(id) => Some(id),
                _ => None,
            },
    {
        match self {
            WikilinkResolution::Resolved(id) => Some(id),
            _ => None,
        }
    }

    /// Returns the database status.
    pub fn status(self) -> (s: &'static str)
        ensures
            s@ == resolution_status(self),
    {
        match self {
            WikilinkResolution::Resolved(_) => "resolved",
            WikilinkResolution::Unresolved => "unresolved",
            WikilinkResolution::Ambiguous => "ambiguous",
        }
    }
}

/// The counts after one wikilink resolved as `r`.
pub open spec fn tally_wikilink_spec(u: ObjectReferenceUpdate, r: WikilinkResolution) -> ObjectReferenceUpdate {
    match r {
        WikilinkResolution::Resolved(_) => ObjectReferenceUpdate { resolved_count: (u.resolved_count + 1) as usize, ..u },
        WikilinkResolution::Unresolved => ObjectReferenceUpdate { unresolved_count: (u.unresolved_count + 1) as usize, ..u },
        WikilinkResolution::Ambiguous => ObjectReferenceUpdate { ambiguous_count: (u.ambiguous_count + 1) as usize, ..u },
    }
}

impl ObjectReferenceUpdate {
    /// Counts one wikilink by its resolution.
    pub fn tally_wikilink(&mut self, r: WikilinkResolution)
        requires
            old(self).resolved_count < usize::MAX,
            old(self).unresolved_count < usize::MAX,
            old(self).ambiguous_count < usize::MAX,
        ensures
            *final(self) == tally_wikilink_spec(*old(self), r),
            final(self).resolved_count == old(self).resolved_count + (if r is Resolved {
                1int
            } else {
                0
            }),
            final(self).unresolved_count == old(self).unresolved_count + (if r is Unresolved {
                1int
            } else {
                0
            }),
            final(self).ambiguous_count == old(self).ambiguous_count + (if r is Ambiguous {
                1int
            } else {
                0
            }),
            final(self).stale_count == old(self).stale_count,
    {
        match r {
            WikilinkResolution::Resolved(_) => self.resolved_count = self.resolved_count + 1,
            WikilinkResolution::Unresolved => self.unresolved_count = self.unresolved_count + 1,
            WikilinkResolution::Ambiguous => self.ambiguous_count = self.ambiguous_count + 1,
        }
    }

    /// Counts one Kival link, resolved when its target was found; returns the target and the
    /// stored status of the link.
    pub fn tally_kival_link(&mut self, target: Option<u128>) -> (r: (Option<u128>, &'static str))
        requires
            old(self).resolved_count < usize::MAX,
            old(self).unresolved_count < usize::MAX,
        ensures
            r.0 == target,
            target is Some ==> *final(self) == (ObjectReferenceUpdate {
                resolved_count: (old(self).resolved_count + 1) as usize,
                ..*old(self)
            }) && r.1@ == "resolved"@,
            target is None ==> *final(self) == (ObjectReferenceUpdate {
                unresolved_count: (old(self).unresolved_count + 1) as usize,
                ..*old(self)
            }) && r.1@ == "unresolved"@,
    {
        if target.is_some() {
            self.resolved_count = self.resolved_count + 1;
            (target, "resolved")
        } else {
            self.unresolved_count = self.unresolved_count + 1;
            (None, "unresolved")
        }
    }
}

impl ReferenceReresolutionSummary {
    /// Records `changed` rows of a title that now resolves as `r`.
    pub fn record(&mut self, r: WikilinkResolution, changed: usize)
        requires
            old(self).updated_count + changed <= usize::MAX,
            old(self).resolved_count + changed <= usize::MAX,
            old(self).unresolved_count + changed <= usize::MAX,
            old(self).ambiguous_count + changed <= usize::MAX,
        ensures
            final(self).updated_count == old(self).updated_count + changed,
            final(self).resolved_count == old(self).resolved_count + (if r is Resolved {
                changed as int
            } else {
                0
            }),
            final(self).unresolved_count == old(self).unresolved_count + (if r is Unresolved {
                changed as int
            } else {
                0
            }),
            final(self).ambiguous_count == old(self).ambiguous_count + (if r is Ambiguous {
                changed as int
            } else {
                0
            }),
    {
        self.updated_count = self.updated_count + changed;
        match r {
            WikilinkResolution::Resolved(_) => self.resolved_count = self.resolved_count + changed,
            WikilinkResolution::Unresolved => self.unresolved_count = self.unresolved_count + changed,
            WikilinkResolution::Ambiguous => self.ambiguous_count = self.ambiguous_count + changed,
        }
    }
}

/// The object a Kival link asks to look up in `workspace_id`: none when the link names another
/// workspace or no object.
pub fn kival_link_lookup(reference: &ParsedObjectReference, workspace_id: u128) -> (r: Option<u128>)
    ensures
        r == match reference.target_workspace_id {
            Some(w) if w != workspace_id => None,
            _ => reference.target_object_id,
        },
{
    match reference.target_workspace_id {
        Some(w) => if w != workspace_id {
            return None;
        },
        None => {},
    }
    reference.target_object_id
}

/// Every counted reference lands in exactly one of the resolved, unresolved and ambiguous counts.
pub proof fn tally_counts_each_reference_once(u: ObjectReferenceUpdate, r: WikilinkResolution)
    requires
        u.resolved_count < usize::MAX,
        u.unresolved_count < usize::MAX,
        u.ambiguous_count < usize::MAX,
    ensures
        ({
            let t = tally_wikilink_spec(u, r);
            &&& t.resolved_count + t.unresolved_count + t.ambiguous_count == u.resolved_count + u.unresolved_count
                + u.ambiguous_count + 1
            &&& t.stale_count == u.stale_count
            &&& update_changed(t)
        }),
{
}

/// Tallying a wikilink adds one to exactly the count its resolution names, as its stored status
/// spells it: a resolved link to the resolved count, an unresolved one to the unresolved count,
/// an ambiguous one to the ambiguous count; the other counts stay.
pub proof fn tally_counts_the_resolution(u: ObjectReferenceUpdate, r: WikilinkResolution)
    requires
        u.resolved_count < usize::MAX,
        u.unresolved_count < usize::MAX,
        u.ambiguous_count < usize::MAX,
    ensures
        ({
            let t = tally_wikilink_spec(u, r);
            &&& t.resolved_count == u.resolved_count + (if resolution_status(r) == "resolved"@ {
                1int
            } else {
                0
            })
            &&& t.unresolved_count == u.unresolved_count + (if resolution_status(r) == "unresolved"@ {
                1int
            } else {
                0
            })
            &&& t.ambiguous_count == u.ambiguous_count + (if resolution_status(r) == "ambiguous"@ {
                1int
            } else {
                0
            })
            &&& t.stale_count == u.stale_count
        }),
{
    reveal_strlit("resolved");
    reveal_strlit("unresolved");
    reveal_strlit("ambiguous");
    assert("resolved"@[0] != "unresolved"@[0]);
    assert("resolved"@[0] != "ambiguous"@[0]);
    assert("unresolved"@[0] != "ambiguous"@[0]);
}

/// A resolved wikilink always counts as resolved, whatever counts came before.
pub proof fn tally_resolved_wikilink(u: ObjectReferenceUpdate, id: u128)
    requires
        u.resolved_count < usize::MAX,
    ensures
        tally_wikilink_spec(u, WikilinkResolution::Resolved(id)) == (ObjectReferenceUpdate {
            resolved_count: (u.resolved_count + 1) as usize,
            ..u
        }),
{
}

} // verus!
