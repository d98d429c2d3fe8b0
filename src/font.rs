//! The font facade: classification, directory, table dispatch, and the
//! metadata and glyph queries over what decoded.
use vstd::prelude::*;
use vstd::utf8::{decode_utf8, decode_utf8_encode_utf8, encode_utf8, valid_utf8};
use crate::container::{classify, is_sfnt_kind, FileType};
use crate::glyf::Glyph;
use crate::loca::LocaTable;
use crate::name::{name_id, Name, NameRecord, NameTable};
use crate::opentype::{same_tables, OpenTypeFile};
use crate::sfnt::{self, directory};
use crate::text::{decoded_text, string_from_utf8, to_utf8_bytes};
use crate::bytes::copy_range;

verus! {

/// Lexicographic order on byte strings, from position `i` on.
pub open spec fn lex_lt(a: Seq<u8>, b: Seq<u8>, i: int) -> bool
    decreases a.len() - i,
{
    if i >= a.len() {
        i < b.len()
    } else if i >= b.len() {
        false
    } else if a[i] != b[i] {
        a[i] < b[i]
    } else {
        lex_lt(a, b, i + 1)
    }
}

/// Whether byte string `a` sorts before `b`.
pub open spec fn bytes_lt(a: Seq<u8>, b: Seq<u8>) -> bool {
    lex_lt(a, b, 0)
}

proof fn lemma_lex_irreflexive(a: Seq<u8>, i: int)
    requires
        0 <= i,
    ensures
        !lex_lt(a, a, i),
    decreases a.len() - i,
{
    if i < a.len() {
        lemma_lex_irreflexive(a, i + 1);
    }
}

proof fn lemma_lex_transitive(a: Seq<u8>, b: Seq<u8>, c: Seq<u8>, i: int)
    requires
        0 <= i,
        lex_lt(a, b, i),
        lex_lt(b, c, i),
    ensures
        lex_lt(a, c, i),
    decreases a.len() - i,
{
    if i < a.len() && a[i] == b[i] && b[i] == c[i] {
        lemma_lex_transitive(a, b, c, i + 1);
    }
}

proof fn lemma_lex_total(a: Seq<u8>, b: Seq<u8>, i: int)
    requires
        0 <= i <= a.len(),
        i <= b.len(),
        forall|j: int| 0 <= j < i ==> a[j] == b[j],
        a != b,
    ensures
        lex_lt(a, b, i) || lex_lt(b, a, i),
    decreases a.len() - i,
{
    if i == a.len() && i == b.len() {
        assert(a =~= b);
    } else if i < a.len() && i < b.len() && a[i] == b[i] {
        lemma_lex_total(a, b, i + 1);
    }
}

/// Compares two byte strings: negative, zero or positive as `a` sorts
/// before, equal to, or after `b`.
pub fn compare_bytes(a: &[u8], b: &[u8]) -> (r: i8)
    ensures
        r < 0 <==> bytes_lt(a@, b@),
        r > 0 <==> bytes_lt(b@, a@),
        r == 0 <==> a@ == b@,
{
    let mut i: usize = 0;
    while i < a.len() && i < b.len()
        invariant
            i <= a@.len(),
            i <= b@.len(),
            forall|j: int| 0 <= j < i ==> a@[j] == b@[j],
            lex_lt(a@, b@, 0) == lex_lt(a@, b@, i as int),
            lex_lt(b@, a@, 0) == lex_lt(b@, a@, i as int),
        decreases a@.len() - i,
    {
        if a[i] != b[i] {
            if a[i] < b[i] {
                return -1;
            } else {
                return 1;
            }
        }
        i = i + 1;
    }
    if a.len() == b.len() {
        assert(a@ =~= b@);
        proof {
            lemma_lex_irreflexive(a@, 0);
        }
        0
    } else if i == a.len() {
        -1
    } else {
        1
    }
}

/// The order of the entries that `available_strings` lists: by field, then
/// by the UTF-8 bytes of the text.
#[verifier::opaque]
pub open spec fn key_lt(a: (Name, Seq<u8>), b: (Name, Seq<u8>)) -> bool {
    name_id(a.0) < name_id(b.0) || (a.0 == b.0 && bytes_lt(a.1, b.1))
}

/// Compares two keys in the order of `key_lt`.
fn compare_key(a_name: Name, a_text: &[u8], b_name: Name, b_text: &[u8]) -> (r: i8)
    ensures
        r < 0 <==> key_lt((a_name, a_text@), (b_name, b_text@)),
        r > 0 <==> key_lt((b_name, b_text@), (a_name, a_text@)),
        r == 0 <==> (a_name, a_text@) == (b_name, b_text@),
{
    reveal(key_lt);
    let a_id = a_name.id();
    let b_id = b_name.id();
    if a_id < b_id {
        -1
    } else if a_id > b_id {
        1
    } else {
        proof {
            lemma_name_id_injective(a_name, b_name);
        }
        compare_bytes(a_text, b_text)
    }
}

proof fn lemma_name_id_injective(a: Name, b: Name)
    requires
        name_id(a) == name_id(b),
    ensures
        a == b,
{
}

proof fn lemma_key_irreflexive(a: (Name, Seq<u8>))
    ensures
        !key_lt(a, a),
{
    reveal(key_lt);
    lemma_lex_irreflexive(a.1, 0);
}

proof fn lemma_key_transitive(a: (Name, Seq<u8>), b: (Name, Seq<u8>), c: (Name, Seq<u8>))
    requires
        key_lt(a, b),
        key_lt(b, c),
    ensures
        key_lt(a, c),
{
    reveal(key_lt);
    if a.0 == b.0 && b.0 == c.0 {
        lemma_lex_transitive(a.1, b.1, c.1, 0);
    }
}

proof fn lemma_key_total(a: (Name, Seq<u8>), b: (Name, Seq<u8>))
    requires
        a != b,
    ensures
        key_lt(a, b) || key_lt(b, a),
{
    reveal(key_lt);
    if name_id(a.0) == name_id(b.0) {
        lemma_name_id_injective(a.0, b.0);
        lemma_lex_total(a.1, b.1, 0);
    }
}

/// The field and text that record `i` contributes to `available_strings`:
/// a well-known field whose bytes decode to non-empty text.
#[verifier::opaque]
pub open spec fn text_at(recs: Seq<NameRecord>, strings: Seq<Vec<u8>>, i: int) -> Option<(Name, Seq<u8>)> {
    match (recs[i].name, decoded_text(recs[i].encoding, strings[i]@)) {
        (Some(n), Some(u)) => if u.len() > 0 {
            Some((n, u))
        } else {
            None
        },
        _ => None,
    }
}

/// An entry's field and the UTF-8 bytes of its text.
pub open spec fn entry_key(e: (Name, String)) -> (Name, Seq<u8>) {
    (e.0, encode_utf8(e.1@))
}

/// Whether one of the first `n` records contributes the pair `e`.
pub open spec fn from_records(recs: Seq<NameRecord>, strings: Seq<Vec<u8>>, n: int, e: (Name, Seq<u8>)) -> bool {
    exists|i: int| #![trigger text_at(recs, strings, i)] 0 <= i < n && text_at(recs, strings, i) == Some(e)
}

/// Whether the entries `r` list the pair `e`.
pub open spec fn lists(r: Seq<(Name, String)>, e: (Name, Seq<u8>)) -> bool {
    exists|k: int| #![trigger r[k]] 0 <= k < r.len() && entry_key(r[k]) == e
}

/// `r` lists the texts of the first `n` records exactly once each, sorted
/// by field and then by text.
pub open spec fn strings_listed(recs: Seq<NameRecord>, strings: Seq<Vec<u8>>, n: int, r: Seq<(Name, String)>) -> bool {
    &&& forall|k: int| #![trigger r[k]] 0 <= k < r.len() ==> from_records(recs, strings, n, entry_key(r[k]))
    &&& forall|i: int| #![trigger text_at(recs, strings, i)] 0 <= i < n && text_at(recs, strings, i) is Some
        ==> lists(r, text_at(recs, strings, i)->Some_0)
    &&& forall|k: int, j: int| #![trigger r[k], r[j]] 0 <= k < j < r.len() ==> key_lt(entry_key(r[k]), entry_key(r[j]))
}

/// `text_at` under a second name, for the records that witness a listed key.
#[verifier::opaque]
pub open spec fn source_text(recs: Seq<NameRecord>, strings: Seq<Vec<u8>>, i: int) -> Option<(Name, Seq<u8>)> {
    text_at(recs, strings, i)
}

proof fn lemma_source_text(recs: Seq<NameRecord>, strings: Seq<Vec<u8>>, i: int)
    ensures
        source_text(recs, strings, i) == text_at(recs, strings, i),
{
    reveal(source_text);
}

/// The sorted keys, as pairs of field and text.
pub open spec fn key_at(names: Seq<Name>, texts: Seq<Vec<u8>>, k: int) -> (Name, Seq<u8>) {
    (names[k], texts[k]@)
}

/// The keys `names`/`texts` list the texts of the first `n` records once
/// each, sorted, each well-formed UTF-8; `src[k]` is a record that key `k`
/// comes from.
pub open spec fn keys_listed(recs: Seq<NameRecord>, strings: Seq<Vec<u8>>, n: int, names: Seq<Name>, texts: Seq<Vec<u8>>, src: Seq<int>) -> bool {
    &&& names.len() == texts.len()
    &&& src.len() == names.len()
    &&& forall|k: int| 0 <= k < names.len() ==> 0 <= #[trigger] src[k] < n && source_text(recs, strings, src[k]) == Some(key_at(names, texts, k))
    &&& forall|i: int| 0 <= i < n && (#[trigger] text_at(recs, strings, i)) is Some ==> exists|k: int|
        0 <= k < names.len() && #[trigger] key_at(names, texts, k) == text_at(recs, strings, i)->Some_0
    &&& forall|k: int, j: int| 0 <= k < j < names.len() ==> key_lt(#[trigger] key_at(names, texts, k), #[trigger] key_at(names, texts, j))
    &&& forall|k: int| 0 <= k < names.len() ==> valid_utf8(#[trigger] texts[k]@)
}

/// Collects the decodable, non-empty texts of the name records, sorted by
/// field and then text, each pair once.
pub fn collect_strings(table: &NameTable) -> (r: Vec<(Name, String)>)
    requires
        table.wf(),
    ensures
        strings_listed(table.name_records@, table.strings@, table.count as int, r@),
{
    let ghost recs = table.name_records@;
    let ghost strs = table.strings@;
    let mut names: Vec<Name> = Vec::new();
    let mut texts: Vec<Vec<u8>> = Vec::new();
    let ghost mut src: Seq<int> = Seq::empty();
    let mut i: usize = 0;
    while i < table.name_records.len()
        invariant
            table.wf(),
            recs == table.name_records@,
            strs == table.strings@,
            i <= table.count,
            keys_listed(recs, strs, i as int, names@, texts@, src),
        decreases table.count - i,
    {
        let rec = &table.name_records[i];
        proof {
            reveal(text_at);
        }
        match rec.name {
            Some(n) => {
                match to_utf8_bytes(rec.encoding, table.strings[i].as_slice()) {
                    Some(u) => {
                        if u.len() > 0 {
                            let copy = copy_range(u.as_slice(), 0, u.len());
                            assert(copy@ =~= u@);
                            if string_from_utf8(copy).is_some() {
                                assert(text_at(recs, strs, i as int) == Some((n, u@)));
                                let Ghost(next) = insert_key(&mut names, &mut texts, n, u, Ghost(recs), Ghost(strs), Ghost(i as int), Ghost(src));
                                proof {
                                    src = next;
                                }
                            } else {
                                proof {
                                    assert(text_at(recs, strs, i as int) is None);
                                    lemma_listed_skip(recs, strs, i as int, names@, texts@, src);
                                }
                            }
                        } else {
                            proof {
                                assert(text_at(recs, strs, i as int) is None);
                                lemma_listed_skip(recs, strs, i as int, names@, texts@, src);
                            }
                        }
                    },
                    None => {
                        proof {
                            assert(text_at(recs, strs, i as int) is None);
                            lemma_listed_skip(recs, strs, i as int, names@, texts@, src);
                        }
                    },
                }
            },
            None => {
                proof {
                    assert(text_at(recs, strs, i as int) is None);
                    lemma_listed_skip(recs, strs, i as int, names@, texts@, src);
                }
            },
        }
        i = i + 1;
    }
    let mut out: Vec<(Name, String)> = Vec::new();
    let mut k: usize = 0;
    while k < names.len()
        invariant
            keys_listed(recs, strs, table.count as int, names@, texts@, src),
            k <= names@.len(),
            out@.len() == k,
            forall|j: int| 0 <= j < k ==> #[trigger] entry_key(out@[j]) == key_at(names@, texts@, j),
        decreases names@.len() - k,
    {
        let t = &texts[k];
        let s = string_from_utf8(copy_range(t.as_slice(), 0, t.len()));
        proof {
            assert(t@.subrange(0, t@.len() as int) =~= t@);
            assert(valid_utf8(texts@[k as int]@));
            decode_utf8_encode_utf8(t@);
        }
        out.push((names[k], s.unwrap()));
        k = k + 1;
    }
    proof {
        let r = out@;
        assert forall|k: int| #![trigger r[k]] 0 <= k < r.len() implies from_records(recs, strs, table.count as int, entry_key(r[k])) by {
            assert(entry_key(out@[k]) == key_at(names@, texts@, k));
            assert(0 <= src[k] < table.count);
            lemma_source_text(recs, strs, src[k]);
        }
        assert forall|i: int| #![trigger text_at(recs, strs, i)] 0 <= i < table.count && text_at(recs, strs, i) is Some implies lists(r, text_at(recs, strs, i)->Some_0) by {
            let k = choose|k: int| 0 <= k < names@.len() && #[trigger] key_at(names@, texts@, k) == text_at(recs, strs, i)->Some_0;
            assert(entry_key(out@[k]) == key_at(names@, texts@, k));
        }
        assert forall|k: int, j: int| #![trigger r[k], r[j]] 0 <= k < j < r.len() implies key_lt(entry_key(r[k]), entry_key(r[j])) by {
            assert(entry_key(out@[k]) == key_at(names@, texts@, k));
            assert(entry_key(out@[j]) == key_at(names@, texts@, j));
        }
        assert(r.len() == names@.len());
    }
    out
}

/// Inserts the text `u` of record `i` in its sorted place, unless the pair
/// is already listed.
fn insert_key(
    names: &mut Vec<Name>,
    texts: &mut Vec<Vec<u8>>,
    n: Name,
    u: Vec<u8>,
    Ghost(recs): Ghost<Seq<NameRecord>>,
    Ghost(strs): Ghost<Seq<Vec<u8>>>,
    Ghost(i): Ghost<int>,
    Ghost(src): Ghost<Seq<int>>,
) -> (next: Ghost<Seq<int>>)
    requires
        0 <= i < recs.len(),
        i < strs.len(),
        keys_listed(recs, strs, i, old(names)@, old(texts)@, src),
        text_at(recs, strs, i) == Some((n, u@)),
    ensures
        keys_listed(recs, strs, i + 1, final(names)@, final(texts)@, next@),
{
    let ghost x = (n, u@);
    let ghost old_names = names@;
    let ghost old_texts = texts@;
    let mut p: usize = 0;
    while p < names.len()
        invariant
            x == (n, u@),
            names@ == old_names,
            texts@ == old_texts,
            names@.len() == texts@.len(),
            p <= names@.len(),
            forall|k: int| 0 <= k < p ==> key_lt(#[trigger] key_at(names@, texts@, k), x),
        ensures
            p <= names@.len(),
            forall|k: int| 0 <= k < p ==> key_lt(#[trigger] key_at(names@, texts@, k), x),
            p < names@.len() ==> !key_lt(key_at(names@, texts@, p as int), x),
        decreases names@.len() - p,
    {
        if compare_key(names[p], texts[p].as_slice(), n, u.as_slice()) >= 0 {
            break;
        }
        p = p + 1;
    }
    // `key_at(p)`, if there is one, is the first key not below `x`.
    if p < names.len() {
        if compare_key(names[p], texts[p].as_slice(), n, u.as_slice()) == 0 {
            proof {
                lemma_listed_extend_dup(recs, strs, i, names@, texts@, src, p as int);
            }
            return Ghost(src);
        }
    }
    names.insert(p, n);
    texts.insert(p, u);
    proof {
        lemma_listed_insert(recs, strs, i, old_names, old_texts, src, p as int, n, x.1, names@, texts@);
    }
    Ghost(src.insert(p as int, i))
}

proof fn lemma_listed_skip(recs: Seq<NameRecord>, strs: Seq<Vec<u8>>, i: int, names: Seq<Name>, texts: Seq<Vec<u8>>, src: Seq<int>)
    requires
        0 <= i,
        keys_listed(recs, strs, i, names, texts, src),
        text_at(recs, strs, i) is None,
    ensures
        keys_listed(recs, strs, i + 1, names, texts, src),
{
    assert forall|j: int| 0 <= j < i + 1 && (#[trigger] text_at(recs, strs, j)) is Some implies exists|k: int|
        0 <= k < names.len() && #[trigger] key_at(names, texts, k) == text_at(recs, strs, j)->Some_0 by {
        assert(j != i);
    }
}

proof fn lemma_listed_extend_dup(recs: Seq<NameRecord>, strs: Seq<Vec<u8>>, i: int, names: Seq<Name>, texts: Seq<Vec<u8>>, src: Seq<int>, p: int)
    requires
        0 <= i,
        keys_listed(recs, strs, i, names, texts, src),
        0 <= p < names.len(),
        text_at(recs, strs, i) == Some(key_at(names, texts, p)),
    ensures
        keys_listed(recs, strs, i + 1, names, texts, src),
{
    assert forall|j: int| 0 <= j < i + 1 && (#[trigger] text_at(recs, strs, j)) is Some implies exists|k: int|
        0 <= k < names.len() && #[trigger] key_at(names, texts, k) == text_at(recs, strs, j)->Some_0 by {
        if j == i {
            assert(key_at(names, texts, p) == text_at(recs, strs, j)->Some_0);
        }
    }
}

proof fn lemma_listed_insert(
    recs: Seq<NameRecord>,
    strs: Seq<Vec<u8>>,
    i: int,
    names: Seq<Name>,
    texts: Seq<Vec<u8>>,
    src: Seq<int>,
    p: int,
    n: Name,
    u: Seq<u8>,
    names2: Seq<Name>,
    texts2: Seq<Vec<u8>>,
)
    requires
        0 <= i < recs.len(),
        i < strs.len(),
        keys_listed(recs, strs, i, names, texts, src),
        text_at(recs, strs, i) == Some((n, u)),
        0 <= p <= names.len(),
        names2 == names.insert(p, n),
        texts2.len() == texts.len() + 1,
        forall|k: int| 0 <= k < p ==> #[trigger] texts2[k] == texts[k],
        forall|k: int| p < k < texts2.len() ==> #[trigger] texts2[k] == texts[k - 1],
        texts2[p]@ == u,
        forall|k: int| 0 <= k < p ==> key_lt(#[trigger] key_at(names, texts, k), (n, u)),
        p < names.len() ==> key_lt((n, u), key_at(names, texts, p)),
    ensures
        keys_listed(recs, strs, i + 1, names2, texts2, src.insert(p, i)),
{
    let x = (n, u);
    let src2 = src.insert(p, i);
    names.insert_ensures(p, n);
    src.insert_ensures(p, i);
    assert forall|k: int| 0 <= k < names2.len() implies #[trigger] key_at(names2, texts2, k) == if k < p {
        key_at(names, texts, k)
    } else if k == p {
        x
    } else {
        key_at(names, texts, k - 1)
    } by {
        if k > p {
            assert(names2[k] == names[k - 1]);
        }
    }
    // Each listed key comes from its record.
    assert forall|k: int| 0 <= k < names2.len() implies 0 <= #[trigger] src2[k] < i + 1
        && source_text(recs, strs, src2[k]) == Some(key_at(names2, texts2, k)) by {
        if k < p {
            assert(src2[k] == src[k]);
        } else if k > p {
            assert(src2[k] == src[k - 1]);
        } else {
            lemma_source_text(recs, strs, i);
        }
    }
    // Each record's text is listed.
    assert forall|j: int| 0 <= j < i + 1 && (#[trigger] text_at(recs, strs, j)) is Some implies exists|k: int|
        0 <= k < names2.len() && #[trigger] key_at(names2, texts2, k) == text_at(recs, strs, j)->Some_0 by {
        if j == i {
            assert(key_at(names2, texts2, p) == text_at(recs, strs, j)->Some_0);
        } else {
            let k = choose|k: int| 0 <= k < names.len() && #[trigger] key_at(names, texts, k) == text_at(recs, strs, j)->Some_0;
            if k < p {
                assert(key_at(names2, texts2, k) == key_at(names, texts, k));
            } else {
                assert(key_at(names2, texts2, k + 1) == key_at(names, texts, k));
            }
        }
    }
    // The keys stay strictly sorted.
    assert forall|k: int, j: int| 0 <= k < j < names2.len() implies key_lt(#[trigger] key_at(names2, texts2, k), #[trigger] key_at(names2, texts2, j)) by {
        if k < p && j < p {
        } else if k < p && j == p {
        } else if k < p && j > p {
            assert(key_lt(key_at(names, texts, k), key_at(names, texts, j - 1)));
        } else if k == p && j > p {
            if j - 1 > p {
                assert(key_lt(key_at(names, texts, p), key_at(names, texts, j - 1)));
                lemma_key_transitive(x, key_at(names, texts, p), key_at(names, texts, j - 1));
            }
        } else {
            assert(key_lt(key_at(names, texts, k - 1), key_at(names, texts, j - 1)));
        }
    }
    assert forall|k: int| 0 <= k < names2.len() implies valid_utf8(#[trigger] texts2[k]@) by {
        if k < p {
        } else if k > p {
            assert(valid_utf8(texts[k - 1]@));
        } else {
            reveal(text_at);
            assert(decoded_text(recs[i].encoding, strs[i]@) == Some(u));
        }
    }
}

/// The first of records `i..n` for `field` whose bytes decode to non-empty
/// text, with that text.
pub open spec fn first_text(recs: Seq<NameRecord>, strings: Seq<Vec<u8>>, field: Name, i: int, n: int) -> Option<Seq<u8>>
    decreases n - i,
{
    if i >= n {
        None
    } else if recs[i].name == Some(field) && decoded_text(recs[i].encoding, strings[i]@) is Some
        && decoded_text(recs[i].encoding, strings[i]@)->Some_0.len() > 0 {
        decoded_text(recs[i].encoding, strings[i]@)
    } else {
        first_text(recs, strings, field, i + 1, n)
    }
}

/// The text of the first record for `field`, in table order, whose bytes
/// decode to non-empty text.
pub fn find_string(table: &NameTable, field: Name) -> (r: Option<String>)
    requires
        table.wf(),
    ensures
        r is Some <==> first_text(table.name_records@, table.strings@, field, 0, table.count as int) is Some,
        r is Some ==> r->Some_0@ == decode_utf8(first_text(table.name_records@, table.strings@, field, 0, table.count as int)->Some_0),
{
    let ghost recs = table.name_records@;
    let ghost strs = table.strings@;
    let mut i: usize = 0;
    while i < table.name_records.len()
        invariant
            table.wf(),
            recs == table.name_records@,
            strs == table.strings@,
            i <= table.count,
            first_text(recs, strs, field, 0, table.count as int) == first_text(recs, strs, field, i as int, table.count as int),
        decreases table.count - i,
    {
        let rec = &table.name_records[i];
        if rec.is_field(field) {
            match to_utf8_bytes(rec.encoding, table.strings[i].as_slice()) {
                Some(u) => {
                    if u.len() > 0 {
                        let s = string_from_utf8(u);
                        if s.is_some() {
                            return s;
                        }
                    }
                },
                None => {},
            }
        }
        i = i + 1;
    }
    None
}

/// Font decoding errors.
#[derive(Clone, Copy, Debug, PartialEq, Eq, Structural)]
pub enum FontParseErr {
    /// No container signature matched.
    UnrecognizedFormatError,
    /// The SFNT table directory reaches past the end of the buffer.
    MalformedDirectory(sfnt::ParseError),
}

/// A decoded font: its container kind and, for the SFNT kinds, its tables.
pub struct Font {
    pub file_type: FileType,
    pub font: Option<OpenTypeFile>,
}

impl Font {
    /// The font is what decoding `s` gives.
    pub open spec fn decodes(&self, s: Seq<u8>) -> bool {
        &&& classify(s) == Some(self.file_type)
        &&& (self.font is Some <==> is_sfnt_kind(self.file_type))
        &&& (self.font is Some ==> self.font->Some_0.decodes(s))
    }

    /// The `name` table, when it is present and decoded.
    pub open spec fn name_table(&self) -> Option<NameTable> {
        match self.font {
            Some(ot) => match ot.name {
                Some(Ok(t)) => Some(t),
                _ => None,
            },
            None => None,
        }
    }

    /// The `loca` table, when it is present and decoded.
    pub open spec fn loca_table(&self) -> Option<LocaTable> {
        match self.font {
            Some(ot) => match ot.loca {
                Some(Ok(t)) => Some(t),
                _ => None,
            },
            None => None,
        }
    }

    /// The decoded tables are well formed.
    pub open spec fn wf(&self) -> bool {
        &&& (self.name_table() is Some ==> self.name_table()->Some_0.wf())
        &&& (self.loca_table() is Some ==> self.loca_table()->Some_0.wf())
    }

    /// Classifies the buffer, then for the SFNT kinds parses the directory
    /// and decodes the tables. Other recognized kinds carry no tables.
    pub fn from_bytes(content: &[u8]) -> (r: Result<Font, FontParseErr>)
        ensures
            classify(content@) is None ==> r == Err::<Font, FontParseErr>(FontParseErr::UnrecognizedFormatError),
            classify(content@) is Some && is_sfnt_kind(classify(content@)->Some_0) && directory(content@) is Err
                ==> r == Err::<Font, FontParseErr>(FontParseErr::MalformedDirectory(directory(content@)->Err_0)),
            r is Ok <==> classify(content@) is Some && (is_sfnt_kind(classify(content@)->Some_0) ==> directory(content@) is Ok),
            r is Ok ==> r->Ok_0.decodes(content@) && r->Ok_0.wf(),
    {
        let file_type = match FileType::detect(content) {
            Some(t) => t,
            None => return Err(FontParseErr::UnrecognizedFormatError),
        };
        if file_type.is_sfnt() {
            match OpenTypeFile::deserialize(content) {
                Ok(ot) => {
                    Ok(Font { file_type, font: Some(ot) })
                },
                Err(e) => Err(FontParseErr::MalformedDirectory(e)),
            }
        } else {
            Ok(Font { file_type, font: None })
        }
    }

    /// Every decodable, non-empty metadata string, as (field, text) pairs
    /// sorted by field and then text, each pair once. Empty without a
    /// decoded `name` table.
    pub fn available_strings(&self) -> (r: Vec<(Name, String)>)
        requires
            self.wf(),
        ensures
            match self.name_table() {
                Some(t) => strings_listed(t.name_records@, t.strings@, t.count as int, r@),
                None => r@.len() == 0,
            },
    {
        match &self.font {
            Some(ot) => match &ot.name {
                Some(Ok(t)) => collect_strings(t),
                _ => Vec::new(),
            },
            None => Vec::new(),
        }
    }

    /// The first non-empty text stored for `field`, in table order.
    pub fn read_unicode_string(&self, field: Name) -> (r: Option<String>)
        requires
            self.wf(),
        ensures
            match self.name_table() {
                Some(t) => (r is Some <==> first_text(t.name_records@, t.strings@, field, 0, t.count as int) is Some)
                    && (r is Some ==> r->Some_0@ == decode_utf8(first_text(t.name_records@, t.strings@, field, 0, t.count as int)->Some_0)),
                None => r is None,
            },
    {
        match &self.font {
            Some(ot) => Self::read_opentype_string(ot, field),
            None => None,
        }
    }

    fn read_opentype_string(ot: &OpenTypeFile, field: Name) -> (r: Option<String>)
        requires
            ot.name matches Some(Ok(t)) ==> t.wf(),
        ensures
            match ot.name {
                Some(Ok(t)) => (r is Some <==> first_text(t.name_records@, t.strings@, field, 0, t.count as int) is Some)
                    && (r is Some ==> r->Some_0@ == decode_utf8(first_text(t.name_records@, t.strings@, field, 0, t.count as int)->Some_0)),
                _ => r is None,
            },
    {
        match &ot.name {
            Some(Ok(t)) => find_string(t, field),
            _ => None,
        }
    }

    /// The glyph count, when `loca` decoded.
    pub fn num_glyphs(&self) -> (r: Option<u16>)
        ensures
            match self.font {
                Some(ot) => r == ot.glyph_count(),
                None => r is None,
            },
    {
        match &self.font {
            Some(ot) => ot.num_glyphs(),
            None => None,
        }
    }

    /// The outline of glyph `idx`, when the font has one (see
    /// `OpenTypeFile::lookup_glyph`).
    pub fn lookup_glyph(&self, idx: usize) -> (r: Option<Glyph>)
        requires
            self.wf(),
        ensures
            match self.font {
                Some(ot) => ot.glyph_found(idx as int, r),
                None => r is None,
            },
    {
        match &self.font {
            Some(ot) => ot.lookup_glyph(idx),
            None => None,
        }
    }
}

/// `available_strings` never lists an empty text, and never lists the same
/// (field, text) pair twice.
pub proof fn lemma_available_strings_distinct(recs: Seq<NameRecord>, strings: Seq<Vec<u8>>, n: int, r: Seq<(Name, String)>)
    requires
        strings_listed(recs, strings, n, r),
    ensures
        forall|k: int| 0 <= k < r.len() ==> (#[trigger] r[k]).1@.len() > 0,
        forall|k: int, j: int| 0 <= k < j < r.len() ==> (#[trigger] r[k]).0 != (#[trigger] r[j]).0 || r[k].1@ != r[j].1@,
{
    assert forall|k: int| 0 <= k < r.len() implies (#[trigger] r[k]).1@.len() > 0 by {
        assert(from_records(recs, strings, n, entry_key(r[k])));
        let i = choose|i: int| #![trigger text_at(recs, strings, i)] 0 <= i < n && text_at(recs, strings, i) == Some(entry_key(r[k]));
        reveal(text_at);
        assert(encode_utf8(r[k].1@).len() > 0);
        if r[k].1@.len() == 0 {
            assert(r[k].1@ =~= Seq::<char>::empty());
        }
    }
    assert forall|k: int, j: int| 0 <= k < j < r.len() implies (#[trigger] r[k]).0 != (#[trigger] r[j]).0 || r[k].1@ != r[j].1@ by {
        assert(key_lt(entry_key(r[k]), entry_key(r[j])));
        if r[k].0 == r[j].0 && r[k].1@ == r[j].1@ {
            lemma_key_irreflexive(entry_key(r[k]));
        }
    }
}

/// Decoding is a function of the buffer: two fonts decoded from the same
/// bytes have the same container kind and the same values in every table.
pub proof fn lemma_font_deterministic(s: Seq<u8>, a: Font, b: Font)
    requires
        a.decodes(s),
        b.decodes(s),
    ensures
        a.file_type == b.file_type,
        a.font is Some <==> b.font is Some,
        a.font is Some ==> same_tables(a.font->Some_0, b.font->Some_0),
{
    if a.font is Some {
        OpenTypeFile::lemma_decode_deterministic(s, a.font->Some_0, b.font->Some_0);
    }
}

proof fn lemma_key_asymmetric(a: (Name, Seq<u8>), b: (Name, Seq<u8>))
    requires
        key_lt(a, b),
    ensures
        !key_lt(b, a),
{
    if key_lt(b, a) {
        lemma_key_transitive(a, b, a);
        lemma_key_irreflexive(a);
    }
}

/// Two record lists with the same texts, up to `n`.
pub open spec fn same_texts(recs1: Seq<NameRecord>, strings1: Seq<Vec<u8>>, recs2: Seq<NameRecord>, strings2: Seq<Vec<u8>>, n: int) -> bool {
    forall|i: int| #![trigger text_at(recs1, strings1, i)] #![trigger text_at(recs2, strings2, i)]
        0 <= i < n ==> text_at(recs1, strings1, i) == text_at(recs2, strings2, i)
}

proof fn lemma_listed_member(
    recs1: Seq<NameRecord>,
    strings1: Seq<Vec<u8>>,
    recs2: Seq<NameRecord>,
    strings2: Seq<Vec<u8>>,
    n: int,
    r1: Seq<(Name, String)>,
    r2: Seq<(Name, String)>,
    k: int,
)
    requires
        strings_listed(recs1, strings1, n, r1),
        strings_listed(recs2, strings2, n, r2),
        same_texts(recs1, strings1, recs2, strings2, n),
        0 <= k < r1.len(),
    ensures
        lists(r2, entry_key(r1[k])),
{
    assert(from_records(recs1, strings1, n, entry_key(r1[k])));
    let i = choose|i: int| #![trigger text_at(recs1, strings1, i)] 0 <= i < n && text_at(recs1, strings1, i) == Some(entry_key(r1[k]));
    assert(text_at(recs2, strings2, i) == Some(entry_key(r1[k])));
}

proof fn lemma_listed_prefix(
    recs1: Seq<NameRecord>,
    strings1: Seq<Vec<u8>>,
    recs2: Seq<NameRecord>,
    strings2: Seq<Vec<u8>>,
    n: int,
    r1: Seq<(Name, String)>,
    r2: Seq<(Name, String)>,
    k: int,
)
    requires
        strings_listed(recs1, strings1, n, r1),
        strings_listed(recs2, strings2, n, r2),
        same_texts(recs1, strings1, recs2, strings2, n),
        0 <= k <= r1.len(),
        k <= r2.len(),
    ensures
        forall|m: int| 0 <= m < k ==> entry_key(#[trigger] r1[m]) == entry_key(r2[m]),
    decreases k,
{
    if k > 0 {
        let m = k - 1;
        lemma_listed_prefix(recs1, strings1, recs2, strings2, n, r1, r2, m);
        lemma_listed_member(recs1, strings1, recs2, strings2, n, r1, r2, m);
        lemma_listed_member(recs2, strings2, recs1, strings1, n, r2, r1, m);
        let j = choose|j: int| #![trigger r2[j]] 0 <= j < r2.len() && entry_key(r2[j]) == entry_key(r1[m]);
        let i = choose|i: int| #![trigger r1[i]] 0 <= i < r1.len() && entry_key(r1[i]) == entry_key(r2[m]);
        if j < m {
            assert(entry_key(r1[j]) == entry_key(r2[j]));
            assert(key_lt(entry_key(r1[j]), entry_key(r1[m])));
            lemma_key_irreflexive(entry_key(r1[m]));
        }
        if i < m {
            assert(entry_key(r1[i]) == entry_key(r2[i]));
            assert(key_lt(entry_key(r2[i]), entry_key(r2[m])));
            lemma_key_irreflexive(entry_key(r2[m]));
        }
        if j > m {
            assert(key_lt(entry_key(r2[m]), entry_key(r2[j])));
            if i > m {
                assert(key_lt(entry_key(r1[m]), entry_key(r1[i])));
                lemma_key_asymmetric(entry_key(r1[m]), entry_key(r2[m]));
            } else {
                lemma_key_irreflexive(entry_key(r2[m]));
            }
        }
    }
}

proof fn lemma_listed_length(
    recs1: Seq<NameRecord>,
    strings1: Seq<Vec<u8>>,
    recs2: Seq<NameRecord>,
    strings2: Seq<Vec<u8>>,
    n: int,
    r1: Seq<(Name, String)>,
    r2: Seq<(Name, String)>,
)
    requires
        strings_listed(recs1, strings1, n, r1),
        strings_listed(recs2, strings2, n, r2),
        same_texts(recs1, strings1, recs2, strings2, n),
        r1.len() >= r2.len(),
    ensures
        r1.len() == r2.len(),
{
    if r1.len() > r2.len() {
        let k = r2.len() as int;
        lemma_listed_prefix(recs1, strings1, recs2, strings2, n, r1, r2, k);
        lemma_listed_member(recs1, strings1, recs2, strings2, n, r1, r2, k);
        let j = choose|j: int| #![trigger r2[j]] 0 <= j < r2.len() && entry_key(r2[j]) == entry_key(r1[k]);
        assert(entry_key(r1[j]) == entry_key(r2[j]));
        assert(key_lt(entry_key(r1[j]), entry_key(r1[k])));
        lemma_key_irreflexive(entry_key(r1[k]));
    }
}

/// Two lists that each list, once and sorted, the texts of records with the
/// same texts are the same list: `strings_listed` fixes the list.
pub proof fn lemma_strings_listed_unique(
    recs1: Seq<NameRecord>,
    strings1: Seq<Vec<u8>>,
    recs2: Seq<NameRecord>,
    strings2: Seq<Vec<u8>>,
    n: int,
    r1: Seq<(Name, String)>,
    r2: Seq<(Name, String)>,
)
    requires
        strings_listed(recs1, strings1, n, r1),
        strings_listed(recs2, strings2, n, r2),
        same_texts(recs1, strings1, recs2, strings2, n),
    ensures
        r1.len() == r2.len(),
        forall|k: int| 0 <= k < r1.len() ==> (#[trigger] r1[k]).0 == r2[k].0 && r1[k].1@ == r2[k].1@,
{
    if r1.len() >= r2.len() {
        lemma_listed_length(recs1, strings1, recs2, strings2, n, r1, r2);
    } else {
        lemma_listed_length(recs2, strings2, recs1, strings1, n, r2, r1);
    }
    lemma_listed_prefix(recs1, strings1, recs2, strings2, n, r1, r2, r1.len() as int);
    assert forall|k: int| 0 <= k < r1.len() implies (#[trigger] r1[k]).0 == r2[k].0 && r1[k].1@ == r2[k].1@ by {
        assert(entry_key(r1[k]) == entry_key(r2[k]));
        vstd::utf8::encode_utf8_decode_utf8(r1[k].1@);
        vstd::utf8::encode_utf8_decode_utf8(r2[k].1@);
    }
}

/// Two fonts decoded from the same bytes list the same metadata strings:
/// what `available_strings` returns for one, it returns for the other.
pub proof fn lemma_available_strings_deterministic(
    s: Seq<u8>,
    a: Font,
    b: Font,
    ra: Seq<(Name, String)>,
    rb: Seq<(Name, String)>,
)
    requires
        a.decodes(s),
        b.decodes(s),
        match a.name_table() {
            Some(t) => strings_listed(t.name_records@, t.strings@, t.count as int, ra),
            None => ra.len() == 0,
        },
        match b.name_table() {
            Some(t) => strings_listed(t.name_records@, t.strings@, t.count as int, rb),
            None => rb.len() == 0,
        },
    ensures
        ra.len() == rb.len(),
        forall|k: int| 0 <= k < ra.len() ==> (#[trigger] ra[k]).0 == rb[k].0 && ra[k].1@ == rb[k].1@,
{
    lemma_font_deterministic(s, a, b);
    if a.font is Some {
        let (x, y) = (a.font->Some_0, b.font->Some_0);
        assert(crate::opentype::name_view(x.name) == crate::opentype::name_view(y.name));
        if x.name matches Some(Ok(_)) {
            let ta = x.name->Some_0->Ok_0;
            let tb = y.name->Some_0->Ok_0;
            assert(ta.wf() && tb.wf());
            assert(ta.name_records@ == tb.name_records@);
            assert(ta.strings@.map_values(|v: Vec<u8>| v@) == tb.strings@.map_values(|v: Vec<u8>| v@));
            assert forall|i: int| #![trigger text_at(ta.name_records@, ta.strings@, i)] #![trigger text_at(tb.name_records@, tb.strings@, i)]
                0 <= i < ta.count implies text_at(ta.name_records@, ta.strings@, i) == text_at(tb.name_records@, tb.strings@, i) by {
                reveal(text_at);
                assert(ta.strings@.map_values(|v: Vec<u8>| v@)[i] == tb.strings@.map_values(|v: Vec<u8>| v@)[i]);
            }
            lemma_strings_listed_unique(ta.name_records@, ta.strings@, tb.name_records@, tb.strings@, ta.count as int, ra, rb);
        }
    }
}

} // verus!
