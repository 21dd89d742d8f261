//! Deterministic JSON encoding used for protocol and identity digests.
//!
//! Object member names are sorted recursively and the value is written as
//! compact JSON, so the bytes do not depend on the order in which a map
//! happens to iterate its members.
use crate::cas::{digest_for, digest_message, domain_is_valid, sha256, validate_domain, Digest};
use crate::error::PongError;
use crate::json::{JsonNumber, JsonValue};
use crate::text::{decimal, signed_decimal, u64_decimal, i64_decimal, chars_of, string_from_chars};
use vstd::prelude::*;

verus! {

broadcast use vstd::string::group_string_axioms;

/// Lower-case hexadecimal digit for `n < 16`.
pub open spec fn hex_digit(n: int) -> char {
    if n < 10 {
        (48 + n) as char
    } else {
        (87 + n) as char
    }
}

/// The JSON string escape of one character: quote, reverse solidus and the
/// C0 control characters are escaped (with the short forms where JSON has
/// them), everything else is written as it is.
pub open spec fn escape_char(c: char) -> Seq<char> {
    let u = c as u32;
    if c == '"' {
        seq!['\\', '"']
    } else if c == '\\' {
        seq!['\\', '\\']
    } else if u == 8 {
        seq!['\\', 'b']
    } else if u == 9 {
        seq!['\\', 't']
    } else if u == 10 {
        seq!['\\', 'n']
    } else if u == 12 {
        seq!['\\', 'f']
    } else if u == 13 {
        seq!['\\', 'r']
    } else if u < 32 {
        seq!['\\', 'u', '0', '0', hex_digit((u / 16) as int), hex_digit((u % 16) as int)]
    } else {
        seq![c]
    }
}

/// The value of a hexadecimal digit of either case.
pub open spec fn hex_value(d: char) -> Option<u32> {
    let u = d as u32;
    if 48 <= u && u <= 57 {
        Some((u - 48) as u32)
    } else if 97 <= u && u <= 102 {
        Some((u - 87) as u32)
    } else if 65 <= u && u <= 70 {
        Some((u - 55) as u32)
    } else {
        None
    }
}

/// The code point one piece of a JSON string literal stands for (RFC 8259,
/// section 7): a character other than quote, reverse solidus and the
/// controls stands for itself; a reverse solidus and one of `" \ / b f n r
/// t` for quote, reverse solidus, solidus, backspace, form feed, line feed,
/// carriage return and tab; `\u` and four hexadecimal digits for the code
/// point they spell.
pub open spec fn json_escape_meaning(s: Seq<char>) -> Option<u32> {
    if s.len() == 1 {
        if s[0] == '"' || s[0] == '\\' || (s[0] as u32) < 32 {
            None
        } else {
            Some(s[0] as u32)
        }
    } else if s.len() == 2 && s[0] == '\\' {
        if s[1] == '"' {
            Some(34)
        } else if s[1] == '\\' {
            Some(92)
        } else if s[1] == '/' {
            Some(47)
        } else if s[1] == 'b' {
            Some(8)
        } else if s[1] == 'f' {
            Some(12)
        } else if s[1] == 'n' {
            Some(10)
        } else if s[1] == 'r' {
            Some(13)
        } else if s[1] == 't' {
            Some(9)
        } else {
            None
        }
    } else if s.len() == 6 && s[0] == '\\' && s[1] == 'u' {
        match (hex_value(s[2]), hex_value(s[3]), hex_value(s[4]), hex_value(s[5])) {
            (Some(a), Some(b), Some(c), Some(d)) => Some((a * 4096 + b * 256 + c * 16 + d) as u32),
            _ => None,
        }
    } else {
        None
    }
}

/// Every character's escape stands for that very character, so the
/// canonical literal of a string reads back as the same string and two
/// different characters are never written alike.
pub proof fn lemma_escape_stands_for_its_character(c: char)
    ensures
        json_escape_meaning(escape_char(c)) == Some(c as u32),
{
    let u = c as u32;
    if c != '"' && c != '\\' && u < 32 && u != 8 && u != 9 && u != 10 && u != 12 && u != 13 {
        let hi = (u / 16) as int;
        let lo = (u % 16) as int;
        assert(u == 16 * hi + lo);
        assert(hi == 0 || hi == 1);
        assert(hex_digit(hi) as u32 == 48 + hi);
        if lo < 10 {
            assert(hex_digit(lo) as u32 == 48 + lo);
        } else {
            assert(hex_digit(lo) as u32 == 87 + lo);
        }
        assert(hex_value('0') == Some(0u32));
    }
}

pub open spec fn escape_body(s: Seq<char>) -> Seq<char>
    decreases s.len(),
{
    if s.len() == 0 {
        Seq::empty()
    } else {
        escape_body(s.drop_last()) + escape_char(s.last())
    }
}

/// A JSON string literal for `s`.
pub open spec fn quoted(s: Seq<char>) -> Seq<char> {
    seq!['"'] + escape_body(s) + seq!['"']
}

pub open spec fn number_text(n: JsonNumber) -> Seq<char> {
    match n {
        JsonNumber::PosInt(u) => decimal(u as nat),
        JsonNumber::NegInt(i) => signed_decimal(i as int),
    }
}

/// Lexicographic order of member names by code point, which is the order of
/// their UTF-8 bytes.
pub open spec fn name_lt(a: Seq<char>, b: Seq<char>) -> bool
    decreases a.len(),
{
    if a.len() == 0 {
        b.len() > 0
    } else if b.len() == 0 {
        false
    } else if a[0] != b[0] {
        (a[0] as u32) < (b[0] as u32)
    } else {
        name_lt(a.drop_first(), b.drop_first())
    }
}

/// Insert a pair before the first pair whose name is not smaller.
pub open spec fn insert_sorted(p: (Seq<char>, Seq<char>), s: Seq<(Seq<char>, Seq<char>)>) -> Seq<
    (Seq<char>, Seq<char>),
>
    decreases s.len(),
{
    if s.len() == 0 {
        seq![p]
    } else if !name_lt(s[0].0, p.0) {
        seq![p] + s
    } else {
        seq![s[0]] + insert_sorted(p, s.drop_first())
    }
}

/// Pairs sorted by name (a stable insertion sort).
pub open spec fn sort_pairs(s: Seq<(Seq<char>, Seq<char>)>) -> Seq<(Seq<char>, Seq<char>)>
    decreases s.len(),
{
    if s.len() == 0 {
        Seq::empty()
    } else {
        insert_sorted(s.last(), sort_pairs(s.drop_last()))
    }
}

/// `"name":value` members separated by commas.
pub open spec fn join_members(s: Seq<(Seq<char>, Seq<char>)>) -> Seq<char>
    decreases s.len(),
{
    if s.len() == 0 {
        Seq::empty()
    } else if s.len() == 1 {
        quoted(s[0].0) + seq![':'] + s[0].1
    } else {
        join_members(s.drop_last()) + seq![','] + quoted(s.last().0) + seq![':'] + s.last().1
    }
}

/// The canonical text of a value.
pub open spec fn canonical_text(v: JsonValue) -> Seq<char>
    decreases v,
{
    match v {
        JsonValue::Null => seq!['n', 'u', 'l', 'l'],
        JsonValue::Bool(b) => if b {
            seq!['t', 'r', 'u', 'e']
        } else {
            seq!['f', 'a', 'l', 's', 'e']
        },
        JsonValue::Number(n) => number_text(n),
        JsonValue::String(s) => quoted(s@),
        JsonValue::Array(items) => seq!['['] + canonical_items(items@) + seq![']'],
        JsonValue::Object(entries) => seq!['{'] + join_members(sort_pairs(member_texts(entries@)))
            + seq!['}'],
    }
}

/// Canonical texts of array elements, separated by commas.
pub open spec fn canonical_items(items: Seq<JsonValue>) -> Seq<char>
    decreases items,
{
    if items.len() == 0 {
        Seq::empty()
    } else if items.len() == 1 {
        canonical_text(items[0])
    } else {
        canonical_items(items.drop_last()) + seq![','] + canonical_text(items.last())
    }
}

/// Each member as its name and the canonical text of its value.
pub open spec fn member_texts(entries: Seq<(String, JsonValue)>) -> Seq<(Seq<char>, Seq<char>)>
    decreases entries,
{
    if entries.len() == 0 {
        Seq::empty()
    } else {
        member_texts(entries.drop_last()).push(
            (entries.last().0@, canonical_text(entries.last().1)),
        )
    }
}

} // verus!

verus! {

pub open spec fn pair_view(p: (Vec<char>, Vec<char>)) -> (Seq<char>, Seq<char>) {
    (p.0@, p.1@)
}

pub open spec fn pairs_view(s: Seq<(Vec<char>, Vec<char>)>) -> Seq<(Seq<char>, Seq<char>)> {
    s.map_values(|p: (Vec<char>, Vec<char>)| pair_view(p))
}

fn hex_digit_char(n: u32) -> (c: char)
    requires
        n < 16,
    ensures
        c == hex_digit(n as int),
{
    if n < 10 {
        let b: u8 = (n as u8) + 48;
        b as char
    } else {
        let b: u8 = (n as u8) + 87;
        b as char
    }
}

/// Append the JSON escape of `c`.
pub fn push_escaped(out: &mut Vec<char>, c: char)
    ensures
        final(out)@ == old(out)@ + escape_char(c),
{
    let u = c as u32;
    if c == '"' {
        out.push('\\');
        out.push('"');
    } else if c == '\\' {
        out.push('\\');
        out.push('\\');
    } else if u == 8 {
        out.push('\\');
        out.push('b');
    } else if u == 9 {
        out.push('\\');
        out.push('t');
    } else if u == 10 {
        out.push('\\');
        out.push('n');
    } else if u == 12 {
        out.push('\\');
        out.push('f');
    } else if u == 13 {
        out.push('\\');
        out.push('r');
    } else if u < 32 {
        out.push('\\');
        out.push('u');
        out.push('0');
        out.push('0');
        out.push(hex_digit_char(u / 16));
        out.push(hex_digit_char(u % 16));
    } else {
        out.push(c);
    }
    assert(final(out)@ =~= old(out)@ + escape_char(c));
}

/// Append the JSON string literal of `s`.
pub fn push_quoted(out: &mut Vec<char>, s: &[char])
    ensures
        final(out)@ == old(out)@ + quoted(s@),
{
    let ghost start = out@;
    out.push('"');
    let mut i: usize = 0;
    while i < s.len()
        invariant
            i <= s@.len(),
            out@ == start + seq!['"'] + escape_body(s@.take(i as int)),
        decreases s@.len() - i,
    {
        push_escaped(out, s[i]);
        proof {
            assert(s@.take(i + 1).drop_last() =~= s@.take(i as int));
            assert(s@.take(i + 1).last() == s@[i as int]);
        }
        i = i + 1;
        assert(out@ =~= start + seq!['"'] + escape_body(s@.take(i as int)));
    }
    out.push('"');
    assert(s@.take(s@.len() as int) =~= s@);
    assert(out@ =~= start + quoted(s@));
}

pub fn number_chars(n: JsonNumber) -> (out: Vec<char>)
    ensures
        out@ == number_text(n),
{
    match n {
        JsonNumber::PosInt(u) => u64_decimal(u),
        JsonNumber::NegInt(i) => i64_decimal(i),
    }
}

/// Code point order of two names.
pub fn name_less(a: &[char], b: &[char]) -> (r: bool)
    ensures
        r == name_lt(a@, b@),
{
    let mut i: usize = 0;
    assert(a@.skip(0) =~= a@);
    assert(b@.skip(0) =~= b@);
    while i < a.len() && i < b.len() && a[i] == b[i]
        invariant
            i <= a@.len(),
            i <= b@.len(),
            name_lt(a@, b@) == name_lt(a@.skip(i as int), b@.skip(i as int)),
        decreases a@.len() - i,
    {
        proof {
            assert(a@.skip(i as int).drop_first() =~= a@.skip(i + 1));
            assert(b@.skip(i as int).drop_first() =~= b@.skip(i + 1));
        }
        i = i + 1;
    }
    if i == a.len() {
        i < b.len()
    } else if i == b.len() {
        false
    } else {
        (a[i] as u32) < (b[i] as u32)
    }
}

proof fn lemma_insert_at(p: (Seq<char>, Seq<char>), s: Seq<(Seq<char>, Seq<char>)>, j: int)
    requires
        0 <= j <= s.len(),
        forall|k: int| 0 <= k < j ==> name_lt(#[trigger] s[k].0, p.0),
        j < s.len() ==> !name_lt(s[j].0, p.0),
    ensures
        insert_sorted(p, s) == s.take(j).push(p) + s.skip(j),
    decreases j,
{
    if j == 0 {
        if s.len() == 0 {
            assert(s.take(0).push(p) + s.skip(0) =~= seq![p]);
        } else {
            assert(s.take(0).push(p) + s.skip(0) =~= seq![p] + s);
        }
    } else {
        let t = s.drop_first();
        assert forall|k: int| 0 <= k < j - 1 implies name_lt(#[trigger] t[k].0, p.0) by {
            assert(t[k] == s[k + 1]);
        }
        if j - 1 < t.len() {
            assert(t[j - 1] == s[j]);
        }
        lemma_insert_at(p, t, j - 1);
        assert(name_lt(s[0].0, p.0));
        assert(seq![s[0]] + (t.take(j - 1).push(p) + t.skip(j - 1)) =~= s.take(j).push(p) + s.skip(
            j,
        ));
    }
}

/// Insert a pair at its place in a sequence sorted by name.
fn insert_pair(sorted: &mut Vec<(Vec<char>, Vec<char>)>, p: (Vec<char>, Vec<char>))
    ensures
        pairs_view(final(sorted)@) == insert_sorted(pair_view(p), pairs_view(old(sorted)@)),
{
    let ghost s = pairs_view(sorted@);
    let mut j: usize = 0;
    while j < sorted.len() && name_less(sorted[j].0.as_slice(), p.0.as_slice())
        invariant
            j <= sorted@.len(),
            s == pairs_view(sorted@),
            forall|k: int| 0 <= k < j ==> name_lt(#[trigger] s[k].0, p.0@),
        decreases sorted@.len() - j,
    {
        j = j + 1;
    }
    proof {
        lemma_insert_at(pair_view(p), s, j as int);
    }
    sorted.insert(j, p);
    assert(pairs_view(sorted@) =~= s.take(j as int).push(pair_view(p)) + s.skip(j as int));
}

/// Sort pairs by name, the order `sort_pairs` describes.
pub fn sort_by_name(pairs: Vec<(Vec<char>, Vec<char>)>) -> (out: Vec<(Vec<char>, Vec<char>)>)
    ensures
        pairs_view(out@) == sort_pairs(pairs_view(pairs@)),
{
    let ghost all = pairs_view(pairs@);
    let mut sorted: Vec<(Vec<char>, Vec<char>)> = Vec::new();
    let mut rest = pairs;
    let n: usize = rest.len();
    assert(pairs_view(rest@) =~= all.skip(0));
    let mut i: usize = 0;
    while rest.len() > 0
        invariant
            n == all.len(),
            rest@.len() + i == n,
            pairs_view(rest@) == all.skip(i as int),
            pairs_view(sorted@) == sort_pairs(all.take(i as int)),
        decreases rest@.len(),
    {
        let ghost r = rest@;
        let p = rest.remove(0);
        proof {
            assert(pairs_view(r)[0] == pair_view(r[0]));
            assert(pair_view(p) == all[i as int]);
            assert(all.take(i + 1).drop_last() =~= all.take(i as int));
            assert(all.take(i + 1).last() == all[i as int]);
        }
        insert_pair(&mut sorted, p);
        assert(rest@ =~= r.subrange(1, r.len() as int));
        assert forall|k: int| 0 <= k < rest@.len() implies pairs_view(rest@)[k] == all.skip(
            i + 1,
        )[k] by {
            assert(rest@[k] == r[k + 1]);
            assert(pairs_view(r)[k + 1] == pair_view(r[k + 1]));
        }
        i = i + 1;
        assert(pairs_view(rest@) =~= all.skip(i as int));
    }
    assert(all.take(n as int) =~= all);
    sorted
}

} // verus!

verus! {

/// Append `s` to `out`.
pub fn append_chars(out: &mut Vec<char>, s: &[char])
    ensures
        final(out)@ == old(out)@ + s@,
{
    let mut i: usize = 0;
    while i < s.len()
        invariant
            i <= s@.len(),
            out@ == old(out)@ + s@.take(i as int),
        decreases s@.len() - i,
    {
        out.push(s[i]);
        i = i + 1;
        assert(out@ =~= old(out)@ + s@.take(i as int));
    }
    assert(s@.take(s@.len() as int) =~= s@);
}

fn join_member_chars(out: &mut Vec<char>, pairs: &Vec<(Vec<char>, Vec<char>)>)
    ensures
        final(out)@ == old(out)@ + join_members(pairs_view(pairs@)),
{
    let ghost all = pairs_view(pairs@);
    let mut i: usize = 0;
    while i < pairs.len()
        invariant
            i <= pairs@.len(),
            all == pairs_view(pairs@),
            out@ == old(out)@ + join_members(all.take(i as int)),
        decreases pairs@.len() - i,
    {
        if i > 0 {
            out.push(',');
        }
        push_quoted(out, pairs[i].0.as_slice());
        out.push(':');
        append_chars(out, pairs[i].1.as_slice());
        proof {
            assert(all[i as int] == pair_view(pairs@[i as int]));
            assert(all.take(i + 1).drop_last() =~= all.take(i as int));
            assert(all.take(i + 1).last() == all[i as int]);
            if i == 0 {
                assert(all.take(1)[0] == all[0]);
            }
        }
        i = i + 1;
        assert(out@ =~= old(out)@ + join_members(all.take(i as int)));
    }
    assert(all.take(pairs@.len() as int) =~= all);
}

/// Append the canonical text of `value`.
#[verifier::loop_isolation(false)]
pub fn push_canonical(out: &mut Vec<char>, value: &JsonValue)
    ensures
        final(out)@ == old(out)@ + canonical_text(*value),
    decreases value,
{
    match value {
        JsonValue::Null => {
            out.push('n');
            out.push('u');
            out.push('l');
            out.push('l');
        },
        JsonValue::Bool(b) => {
            if *b {
                out.push('t');
                out.push('r');
                out.push('u');
                out.push('e');
            } else {
                out.push('f');
                out.push('a');
                out.push('l');
                out.push('s');
                out.push('e');
            }
        },
        JsonValue::Number(n) => {
            let digits = number_chars(*n);
            append_chars(out, digits.as_slice());
        },
        JsonValue::String(s) => {
            let chars = chars_of(s.as_str());
            push_quoted(out, chars.as_slice());
        },
        JsonValue::Array(items) => {
            let ghost start = out@;
            out.push('[');
            let mut i: usize = 0;
            while i < items.len()
                invariant
                    i <= items@.len(),
                    out@ == start + seq!['['] + canonical_items(items@.take(i as int)),
                decreases items@.len() - i,
            {
                if i > 0 {
                    out.push(',');
                }
                proof {
                    vstd::std_specs::vec::axiom_vec_index_decreases(*items, i as int);
                    assert(decreases_to!(*value => (*value)->Array_0));
                    assert(decreases_to!(*items => items[i as int]));
                }
                push_canonical(out, &items[i]);
                proof {
                    assert(items@.take(i + 1).drop_last() =~= items@.take(i as int));
                    assert(items@.take(i + 1).last() == items@[i as int]);
                    if i == 0 {
                        assert(items@.take(1)[0] == items@[0]);
                    }
                }
                i = i + 1;
                assert(out@ =~= start + seq!['['] + canonical_items(items@.take(i as int)));
            }
            out.push(']');
            assert(items@.take(items@.len() as int) =~= items@);
        },
        JsonValue::Object(entries) => {
            let ghost start = out@;
            let mut pairs: Vec<(Vec<char>, Vec<char>)> = Vec::new();
            let mut i: usize = 0;
            while i < entries.len()
                invariant
                    i <= entries@.len(),
                    pairs_view(pairs@) == member_texts(entries@.take(i as int)),
                decreases entries@.len() - i,
            {
                let name = chars_of(entries[i].0.as_str());
                let mut text: Vec<char> = Vec::new();
                proof {
                    vstd::std_specs::vec::axiom_vec_index_decreases(*entries, i as int);
                    assert(decreases_to!(*value => (*value)->Object_0));
                    assert(decreases_to!(*entries => entries[i as int]));
                    assert(decreases_to!(entries[i as int] => entries[i as int].1));
                }
                push_canonical(&mut text, &entries[i].1);
                let ghost before = pairs@;
                pairs.push((name, text));
                proof {
                    assert(entries@.take(i + 1).drop_last() =~= entries@.take(i as int));
                    assert(entries@.take(i + 1).last() == entries@[i as int]);
                    assert(text@ =~= canonical_text(entries@[i as int].1));
                    assert(pairs_view(pairs@) =~= pairs_view(before).push(
                        (entries@[i as int].0@, canonical_text(entries@[i as int].1)),
                    ));
                }
                i = i + 1;
            }
            assert(entries@.take(entries@.len() as int) =~= entries@);
            let sorted = sort_by_name(pairs);
            out.push('{');
            join_member_chars(out, &sorted);
            out.push('}');
            assert(out@ =~= start + canonical_text(*value));
        },
    }
    assert(final(out)@ =~= old(out)@ + canonical_text(*value));
}

/// The canonical encoding of a value: its canonical text as UTF-8.
pub open spec fn canonical_encoding(value: JsonValue) -> Seq<u8> {
    vstd::utf8::encode_utf8(canonical_text(value))
}

/// Encode a JSON value without insignificant whitespace and with
/// recursively sorted object member names, as UTF-8 bytes. Every value the
/// library holds has an encoding.
pub fn canonical_bytes(value: &JsonValue) -> (r: Result<Vec<u8>, PongError>)
    ensures
        r matches Ok(bytes) && bytes@ == canonical_encoding(*value),
{
    let mut out: Vec<char> = Vec::new();
    push_canonical(&mut out, value);
    assert(out@ =~= canonical_text(*value));
    let text = string_from_chars(out.as_slice());
    Ok(vstd::slice::slice_to_vec(text.as_str().as_bytes()))
}

/// The same encoding under the longer protocol name.
pub fn canonical_json_bytes(value: &JsonValue) -> (r: Result<Vec<u8>, PongError>)
    ensures
        r matches Ok(bytes) && bytes@ == canonical_encoding(*value),
{
    canonical_bytes(value)
}

/// Hash a canonical JSON value under a declared domain.
pub fn canonical_digest(domain: &str, value: &JsonValue) -> (r: Result<Digest, PongError>)
    ensures
        r is Ok <==> domain_is_valid(domain@),
        r matches Ok(d) ==> d.bytes_view() == sha256(
            digest_message(domain@, canonical_encoding(*value)),
        ),
        !domain_is_valid(domain@) ==> (r matches Err(e) && crate::cas::domain_refused(domain@, e)),
{
    validate_domain(domain)?;
    let bytes = canonical_bytes(value)?;
    Ok(digest_for(domain, bytes.as_slice()))
}


/// Member pairs in strictly increasing name order.
pub open spec fn pairs_sorted(s: Seq<(Seq<char>, Seq<char>)>) -> bool {
    forall|i: int, j: int| 0 <= i < j < s.len() ==> name_lt(#[trigger] s[i].0, #[trigger] s[j].0)
}

/// No two entries of an object share a name.
pub open spec fn entry_names_distinct(entries: Seq<(String, JsonValue)>) -> bool {
    forall|i: int, j: int|
        0 <= i < entries.len() && 0 <= j < entries.len() && i != j ==> #[trigger] entries[i].0@
            != #[trigger] entries[j].0@
}

proof fn lemma_name_lt_irreflexive(a: Seq<char>)
    ensures
        !name_lt(a, a),
    decreases a.len(),
{
    if a.len() > 0 {
        lemma_name_lt_irreflexive(a.drop_first());
    }
}

proof fn lemma_name_lt_transitive(a: Seq<char>, b: Seq<char>, c: Seq<char>)
    requires
        name_lt(a, b),
        name_lt(b, c),
    ensures
        name_lt(a, c),
    decreases a.len(),
{
    if a.len() > 0 && b.len() > 0 && c.len() > 0 && a[0] == b[0] && b[0] == c[0] {
        lemma_name_lt_transitive(a.drop_first(), b.drop_first(), c.drop_first());
    }
}

proof fn lemma_char_code_injective(c: char, d: char)
    ensures
        c != d ==> (c as u32) != (d as u32),
{
}

proof fn lemma_name_lt_total(a: Seq<char>, b: Seq<char>)
    requires
        a != b,
    ensures
        name_lt(a, b) || name_lt(b, a),
    decreases a.len(),
{
    if a.len() == 0 {
        assert(b.len() > 0) by {
            if b.len() == 0 {
                assert(a =~= b);
            }
        }
    } else if b.len() > 0 {
        if a[0] == b[0] {
            if a.drop_first() == b.drop_first() {
                assert(a =~= seq![a[0]] + a.drop_first());
                assert(b =~= seq![b[0]] + b.drop_first());
            }
            lemma_name_lt_total(a.drop_first(), b.drop_first());
        } else {
            lemma_char_code_injective(a[0], b[0]);
        }
    }
}

proof fn lemma_insert_sorted_multiset(p: (Seq<char>, Seq<char>), s: Seq<(Seq<char>, Seq<char>)>)
    ensures
        insert_sorted(p, s).to_multiset() =~= s.to_multiset().insert(p),
    decreases s.len(),
{
    broadcast use vstd::seq_lib::group_to_multiset_ensures, vstd::multiset::group_multiset_axioms;

    if s.len() == 0 {
        assert(insert_sorted(p, s) =~= s.push(p));
    } else if !name_lt(s[0].0, p.0) {
        assert(insert_sorted(p, s) =~= s.insert(0, p));
    } else {
        let r = s.drop_first();
        lemma_insert_sorted_multiset(p, r);
        assert(insert_sorted(p, s) =~= insert_sorted(p, r).insert(0, s[0]));
        assert(s =~= r.insert(0, s[0]));
    }
}

proof fn lemma_insert_sorted_sorted(p: (Seq<char>, Seq<char>), s: Seq<(Seq<char>, Seq<char>)>)
    requires
        pairs_sorted(s),
        forall|k: int| 0 <= k < s.len() ==> (#[trigger] s[k]).0 != p.0,
    ensures
        pairs_sorted(insert_sorted(p, s)),
    decreases s.len(),
{
    broadcast use vstd::seq_lib::group_to_multiset_ensures, vstd::multiset::group_multiset_axioms;

    if s.len() == 0 {
    } else if !name_lt(s[0].0, p.0) {
        lemma_name_lt_total(s[0].0, p.0);
        let t = insert_sorted(p, s);
        assert(t =~= seq![p] + s);
        assert forall|i: int, j: int| 0 <= i < j < t.len() implies name_lt(
            #[trigger] t[i].0,
            #[trigger] t[j].0,
        ) by {
            if i == 0 {
                if j > 1 {
                    assert(name_lt(s[0].0, s[j - 1].0));
                    lemma_name_lt_transitive(p.0, s[0].0, s[j - 1].0);
                }
            } else {
                assert(t[i] == s[i - 1] && t[j] == s[j - 1]);
            }
        }
    } else {
        let r = s.drop_first();
        assert forall|k: int| 0 <= k < r.len() implies (#[trigger] r[k]).0 != p.0 by {
            assert(r[k] == s[k + 1]);
        }
        lemma_insert_sorted_sorted(p, r);
        lemma_insert_sorted_multiset(p, r);
        let u = insert_sorted(p, r);
        let t = insert_sorted(p, s);
        assert(t =~= seq![s[0]] + u);
        assert forall|j: int| 0 <= j < u.len() implies name_lt(s[0].0, #[trigger] u[j].0) by {
            let x = u[j];
            assert(u.contains(x));
            assert(u.to_multiset().count(x) > 0);
            if x != p {
                assert(r.to_multiset().count(x) > 0);
                assert(r.contains(x));
                let m = choose|m: int| 0 <= m < r.len() && r[m] == x;
                assert(r[m] == s[m + 1]);
            }
        }
        assert forall|i: int, j: int| 0 <= i < j < t.len() implies name_lt(
            #[trigger] t[i].0,
            #[trigger] t[j].0,
        ) by {
            if i == 0 {
                assert(t[j] == u[j - 1]);
            } else {
                assert(t[i] == u[i - 1] && t[j] == u[j - 1]);
            }
        }
    }
}

pub proof fn lemma_sort_pairs(s: Seq<(Seq<char>, Seq<char>)>)
    ensures
        sort_pairs(s).to_multiset() =~= s.to_multiset(),
        (forall|i: int, j: int|
            0 <= i < s.len() && 0 <= j < s.len() && i != j ==> #[trigger] s[i].0 != #[trigger] s[j].0)
            ==> pairs_sorted(sort_pairs(s)),
    decreases s.len(),
{
    broadcast use vstd::seq_lib::group_to_multiset_ensures, vstd::multiset::group_multiset_axioms;

    if s.len() > 0 {
        let init = s.drop_last();
        let last = s.last();
        lemma_sort_pairs(init);
        lemma_insert_sorted_multiset(last, sort_pairs(init));
        assert(s =~= init.push(last));
        if forall|i: int, j: int|
            0 <= i < s.len() && 0 <= j < s.len() && i != j ==> #[trigger] s[i].0
                != #[trigger] s[j].0 {
            assert forall|i: int, j: int|
                0 <= i < init.len() && 0 <= j < init.len() && i != j implies #[trigger] init[i].0
                != #[trigger] init[j].0 by {
                assert(init[i] == s[i] && init[j] == s[j]);
            }
            let sorted = sort_pairs(init);
            assert forall|k: int| 0 <= k < sorted.len() implies (#[trigger] sorted[k]).0
                != last.0 by {
                let x = sorted[k];
                assert(sorted.contains(x));
                assert(sorted.to_multiset().count(x) > 0);
                assert(init.to_multiset().count(x) > 0);
                assert(init.contains(x));
                let m = choose|m: int| 0 <= m < init.len() && init[m] == x;
                assert(s[m] == x);
                assert(s[s.len() - 1] == last);
            }
            lemma_insert_sorted_sorted(last, sorted);
        }
    }
}

proof fn lemma_sorted_unique(a: Seq<(Seq<char>, Seq<char>)>, b: Seq<(Seq<char>, Seq<char>)>)
    requires
        pairs_sorted(a),
        pairs_sorted(b),
        a.to_multiset() == b.to_multiset(),
    ensures
        a == b,
    decreases a.len(),
{
    broadcast use vstd::seq_lib::group_to_multiset_ensures, vstd::multiset::group_multiset_axioms;

    vstd::seq_lib::to_multiset_len(a);
    vstd::seq_lib::to_multiset_len(b);
    if a.len() == 0 {
        assert(a =~= b);
    } else {
        let x = a[0];
        let y = b[0];
        assert(b.contains(y));
        assert(b.to_multiset().count(y) > 0);
        assert(a.contains(y));
        assert(a.contains(x));
        assert(a.to_multiset().count(x) > 0);
        assert(b.contains(x));
        if x != y {
            let i = choose|i: int| 0 <= i < a.len() && a[i] == y;
            let j = choose|j: int| 0 <= j < b.len() && b[j] == x;
            assert(name_lt(a[0].0, a[i].0));
            assert(name_lt(b[0].0, b[j].0));
            lemma_name_lt_transitive(x.0, y.0, x.0);
            lemma_name_lt_irreflexive(x.0);
        }
        let a1 = a.remove(0);
        let b1 = b.remove(0);
        assert(a1 =~= a.drop_first());
        assert(b1 =~= b.drop_first());
        assert forall|i: int, j: int| 0 <= i < j < a1.len() implies name_lt(
            #[trigger] a1[i].0,
            #[trigger] a1[j].0,
        ) by {
            assert(a1[i] == a[i + 1] && a1[j] == a[j + 1]);
        }
        assert forall|i: int, j: int| 0 <= i < j < b1.len() implies name_lt(
            #[trigger] b1[i].0,
            #[trigger] b1[j].0,
        ) by {
            assert(b1[i] == b[i + 1] && b1[j] == b[j + 1]);
        }
        lemma_sorted_unique(a1, b1);
        assert(x == y);
        assert forall|k: int| 0 <= k < a.len() implies a[k] == b[k] by {
            if k > 0 {
                assert(a[k] == a1[k - 1] && b[k] == b1[k - 1]);
            }
        }
        assert(a =~= b);
    }
}

pub proof fn lemma_member_texts_index(entries: Seq<(String, JsonValue)>)
    ensures
        member_texts(entries).len() == entries.len(),
        forall|k: int|
            0 <= k < entries.len() ==> #[trigger] member_texts(entries)[k] == (
                entries[k].0@,
                canonical_text(entries[k].1),
            ),
    decreases entries.len(),
{
    if entries.len() > 0 {
        lemma_member_texts_index(entries.drop_last());
        assert forall|k: int| 0 <= k < entries.len() implies #[trigger] member_texts(entries)[k] == (
            entries[k].0@,
            canonical_text(entries[k].1),
        ) by {
            if k < entries.len() - 1 {
                assert(entries.drop_last()[k] == entries[k]);
            }
        }
    }
}

proof fn lemma_member_texts_multiset(a: Seq<(String, JsonValue)>, b: Seq<(String, JsonValue)>)
    requires
        a.to_multiset() == b.to_multiset(),
    ensures
        member_texts(a).to_multiset() == member_texts(b).to_multiset(),
    decreases a.len(),
{
    broadcast use vstd::seq_lib::group_to_multiset_ensures, vstd::multiset::group_multiset_axioms;

    lemma_member_texts_index(a);
    lemma_member_texts_index(b);
    vstd::seq_lib::to_multiset_len(a);
    vstd::seq_lib::to_multiset_len(b);
    if a.len() == 0 {
        assert(member_texts(a) =~= member_texts(b));
    } else {
        let x = a.last();
        assert(a.contains(x));
        assert(a.to_multiset().count(x) > 0);
        assert(b.contains(x));
        let j = choose|j: int| 0 <= j < b.len() && b[j] == x;
        let a1 = a.drop_last();
        let b1 = b.remove(j);
        assert(a =~= a1.push(x));
        assert(a1.to_multiset() =~= b1.to_multiset());
        lemma_member_texts_multiset(a1, b1);
        lemma_member_texts_index(a1);
        lemma_member_texts_index(b1);
        assert(member_texts(a) =~= member_texts(a1).push((x.0@, canonical_text(x.1))));
        assert(member_texts(b1) =~= member_texts(b).remove(j));
        assert(member_texts(b)[j] == (x.0@, canonical_text(x.1)));
    }
}

/// Canonical encoding does not depend on member order: two objects that
/// hold the same members, under distinct names, in any order, encode to the
/// same bytes.
pub proof fn lemma_canonical_encoding_ignores_member_order(
    a: Vec<(String, JsonValue)>,
    b: Vec<(String, JsonValue)>,
)
    requires
        a@.to_multiset() == b@.to_multiset(),
        entry_names_distinct(a@),
        entry_names_distinct(b@),
    ensures
        canonical_encoding(JsonValue::Object(a)) == canonical_encoding(JsonValue::Object(b)),
{
    lemma_member_texts_multiset(a@, b@);
    lemma_member_texts_index(a@);
    lemma_member_texts_index(b@);
    let ta = member_texts(a@);
    let tb = member_texts(b@);
    assert forall|i: int, j: int|
        0 <= i < ta.len() && 0 <= j < ta.len() && i != j implies #[trigger] ta[i].0
        != #[trigger] ta[j].0 by {
        assert(ta[i].0 == a@[i].0@ && ta[j].0 == a@[j].0@);
    }
    assert forall|i: int, j: int|
        0 <= i < tb.len() && 0 <= j < tb.len() && i != j implies #[trigger] tb[i].0
        != #[trigger] tb[j].0 by {
        assert(tb[i].0 == b@[i].0@ && tb[j].0 == b@[j].0@);
    }
    lemma_sort_pairs(ta);
    lemma_sort_pairs(tb);
    lemma_sorted_unique(sort_pairs(ta), sort_pairs(tb));
}


/// The members of an object with distinct names are written in strictly
/// increasing name order, each once.
pub proof fn lemma_canonical_members_sorted(entries: Vec<(String, JsonValue)>)
    requires
        entry_names_distinct(entries@),
    ensures
        pairs_sorted(sort_pairs(member_texts(entries@))),
        sort_pairs(member_texts(entries@)).to_multiset() == member_texts(entries@).to_multiset(),
{
    lemma_member_texts_index(entries@);
    let t = member_texts(entries@);
    assert forall|i: int, j: int|
        0 <= i < t.len() && 0 <= j < t.len() && i != j implies #[trigger] t[i].0
        != #[trigger] t[j].0 by {
        assert(t[i].0 == entries@[i].0@ && t[j].0 == entries@[j].0@);
    }
    lemma_sort_pairs(t);
}

} // verus!
