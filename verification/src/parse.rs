//! Splitting a raw line into fields and parsing its numeric fields.
//!
//! The specification side models Rust's usual splitting conventions: a
//! separator between every two fields, so `n` separator occurrences yield
//! `n + 1` fields, possibly empty ones.

use vstd::prelude::*;

verus! {

/// The fields of `s` split on the single-character separator `sep`,
/// leftmost separator first. Always at least one field.
pub open spec fn split_char(s: Seq<char>, sep: char) -> Seq<Seq<char>>
    decreases s.len(),
{
    if s.len() == 0 {
        seq![Seq::<char>::empty()]
    } else if s[0] == sep {
        seq![Seq::<char>::empty()] + split_char(s.skip(1), sep)
    } else {
        let rest = split_char(s.skip(1), sep);
        seq![seq![s[0]] + rest[0]] + rest.skip(1)
    }
}

pub proof fn lemma_split_char_len(s: Seq<char>, sep: char)
    ensures
        split_char(s, sep).len() >= 1,
    decreases s.len(),
{
    if s.len() == 0 {
    } else {
        lemma_split_char_len(s.skip(1), sep);
    }
}

pub proof fn lemma_split_char_no_sep(s: Seq<char>, sep: char)
    requires
        forall|j: int| 0 <= j < s.len() ==> s[j] != sep,
    ensures
        split_char(s, sep) == seq![s],
    decreases s.len(),
{
    if s.len() == 0 {
        assert(s =~= Seq::<char>::empty());
        assert(split_char(s, sep) =~~= seq![s]);
    } else {
        lemma_split_char_no_sep(s.skip(1), sep);
        assert(seq![s[0]] + s.skip(1) =~= s);
        assert(split_char(s, sep) =~~= seq![s]);
    }
}

pub proof fn lemma_split_char_step(s: Seq<char>, sep: char, i: int)
    requires
        0 <= i < s.len(),
        s[i] == sep,
        forall|j: int| 0 <= j < i ==> s[j] != sep,
    ensures
        split_char(s, sep) == seq![s.take(i)] + split_char(s.skip(i + 1), sep),
    decreases i,
{
    if i == 0 {
        assert(s.take(0) =~= Seq::<char>::empty());
        assert(split_char(s, sep) =~~= seq![s.take(0)] + split_char(s.skip(1), sep));
    } else {
        let t = s.skip(1);
        lemma_split_char_step(t, sep, i - 1);
        lemma_split_char_len(t.skip(i), sep);
        assert(t.skip(i - 1 + 1) =~= s.skip(i + 1));
        assert(split_char(t, sep) == seq![t.take(i - 1)] + split_char(s.skip(i + 1), sep));
        assert(seq![s[0]] + t.take(i - 1) =~= s.take(i));
        assert((seq![t.take(i - 1)] + split_char(s.skip(i + 1), sep)).skip(1) =~= split_char(
            s.skip(i + 1),
            sep,
        ));
        assert(split_char(s, sep) =~~= seq![s.take(i)] + split_char(s.skip(i + 1), sep));
    }
}

/// Splits `s` on every occurrence of `sep`, as the fields of one record.
pub fn split_on_char(s: &str, sep: char) -> (fields: Vec<String>)
    ensures
        fields.deep_view() == split_char(s@, sep),
{
    let len = s.unicode_len();
    let mut fields: Vec<String> = Vec::new();
    let mut start: usize = 0;
    let mut i: usize = 0;
    proof {
        assert(fields.deep_view() =~~= Seq::<Seq<char>>::empty());
        assert(s@.skip(0) =~= s@);
    }
    while i < len
        invariant
            start <= i <= len,
            len == s@.len(),
            forall|j: int| start <= j < i ==> s@[j] != sep,
            fields.deep_view() + split_char(s@.skip(start as int), sep) == split_char(s@, sep),
        decreases len - i,
    {
        if s.get_char(i) == sep {
            let ghost pre = fields.deep_view();
            let field = String::from_str(s.substring_char(start, i));
            fields.push(field);
            proof {
                let t = s@.skip(start as int);
                lemma_split_char_step(t, sep, i - start);
                assert(t.take(i - start) =~= s@.subrange(start as int, i as int));
                assert(t.skip(i - start + 1) =~= s@.skip(i + 1));
                assert(fields.deep_view() =~~= pre.push(field@));
                assert(fields.deep_view() + split_char(s@.skip(i + 1), sep) =~~= split_char(
                    s@,
                    sep,
                ));
            }
            start = i + 1;
        }
        i = i + 1;
    }
    let ghost pre = fields.deep_view();
    let field = String::from_str(s.substring_char(start, len));
    fields.push(field);
    proof {
        let t = s@.skip(start as int);
        lemma_split_char_no_sep(t, sep);
        assert(t =~= s@.subrange(start as int, len as int));
        assert(fields.deep_view() =~~= pre.push(field@));
        assert(fields.deep_view() =~~= split_char(s@, sep));
    }
    fields
}

/// The fields of `s` split on every non-overlapping occurrence of the
/// two-character separator `__`, leftmost occurrence first.
pub open spec fn split_dunder(s: Seq<char>) -> Seq<Seq<char>>
    decreases s.len(),
{
    if s.len() < 2 {
        seq![s]
    } else if s[0] == '_' && s[1] == '_' {
        seq![Seq::<char>::empty()] + split_dunder(s.skip(2))
    } else {
        let rest = split_dunder(s.skip(1));
        seq![seq![s[0]] + rest[0]] + rest.skip(1)
    }
}

pub proof fn lemma_split_dunder_len(s: Seq<char>)
    ensures
        split_dunder(s).len() >= 1,
    decreases s.len(),
{
    if s.len() < 2 {
    } else if s[0] == '_' && s[1] == '_' {
        lemma_split_dunder_len(s.skip(2));
    } else {
        lemma_split_dunder_len(s.skip(1));
    }
}

pub proof fn lemma_split_dunder_no_sep(s: Seq<char>)
    requires
        forall|j: int| 0 <= j && j + 1 < s.len() ==> !((#[trigger] s[j]) == '_' && s[j + 1] == '_'),
    ensures
        split_dunder(s) == seq![s],
    decreases s.len(),
{
    if s.len() < 2 {
    } else {
        assert(!(s[0] == '_' && s[1] == '_'));
        lemma_split_dunder_no_sep(s.skip(1));
        assert(seq![s[0]] + s.skip(1) =~= s);
        assert(split_dunder(s) =~~= seq![s]);
    }
}

pub proof fn lemma_split_dunder_step(s: Seq<char>, i: int)
    requires
        0 <= i,
        i + 1 < s.len(),
        s[i] == '_',
        s[i + 1] == '_',
        forall|j: int| 0 <= j < i ==> !((#[trigger] s[j]) == '_' && s[j + 1] == '_'),
    ensures
        split_dunder(s) == seq![s.take(i)] + split_dunder(s.skip(i + 2)),
    decreases i,
{
    if i == 0 {
        assert(s.take(0) =~= Seq::<char>::empty());
        assert(split_dunder(s) =~~= seq![s.take(0)] + split_dunder(s.skip(2)));
    } else {
        let t = s.skip(1);
        lemma_split_dunder_step(t, i - 1);
        lemma_split_dunder_len(t.skip(i + 1));
        assert(t.skip(i - 1 + 2) =~= s.skip(i + 2));
        assert(split_dunder(t) == seq![t.take(i - 1)] + split_dunder(s.skip(i + 2)));
        assert(seq![s[0]] + t.take(i - 1) =~= s.take(i));
        assert((seq![t.take(i - 1)] + split_dunder(s.skip(i + 2))).skip(1) =~= split_dunder(
            s.skip(i + 2),
        ));
        assert(split_dunder(s) =~~= seq![s.take(i)] + split_dunder(s.skip(i + 2)));
    }
}

/// Finds the leftmost `__` occurrence at or after position `from`.
fn find_dunder(s: &str, from: usize) -> (r: Option<usize>)
    requires
        from <= s@.len(),
    ensures
        match r {
            Option::Some(i) => from <= i && i + 1 < s@.len() && s@[i as int] == '_' && s@[i as int
                + 1] == '_' && (forall|j: int|
                from <= j < i ==> !((#[trigger] s@[j]) == '_' && s@[j + 1] == '_')),
            Option::None => forall|j: int|
                from <= j && j + 1 < s@.len() ==> !((#[trigger] s@[j]) == '_' && s@[j + 1] == '_'),
        },
{
    let len = s.unicode_len();
    let mut i: usize = from;
    while i < len && i + 1 < len
        invariant
            from <= i,
            i <= len,
            len == s@.len(),
            forall|j: int| from <= j < i ==> !((#[trigger] s@[j]) == '_' && s@[j + 1] == '_'),
        decreases len - i,
    {
        if s.get_char(i) == '_' && s.get_char(i + 1) == '_' {
            return Option::Some(i);
        }
        i = i + 1;
    }
    Option::None
}

/// Splits a compound probe token into its name and its direction tag: the
/// text before the first `__` and the text between that `__` and the next
/// one (or the token's end). `None` when the token holds no `__` at all.
pub fn split_probe_token(token: &str) -> (r: Option<(String, String)>)
    ensures
        match r {
            Option::None => split_dunder(token@).len() < 2,
            Option::Some(p) => split_dunder(token@).len() >= 2 && p.0@ == split_dunder(token@)[0]
                && p.1@ == split_dunder(token@)[1],
        },
{
    let len = token.unicode_len();
    match find_dunder(token, 0) {
        Option::None => {
            proof {
                lemma_split_dunder_no_sep(token@);
            }
            Option::None
        },
        Option::Some(i) => {
            let name = String::from_str(token.substring_char(0, i));
            proof {
                lemma_split_dunder_step(token@, i as int);
                lemma_split_dunder_len(token@.skip(i + 2));
                assert(token@.take(i as int) =~= token@.subrange(0, i as int));
            }
            let ghost rest = token@.skip(i + 2);
            let tag = match find_dunder(token, i + 2) {
                Option::None => {
                    let tag = String::from_str(token.substring_char(i + 2, len));
                    proof {
                        assert forall|j: int| 0 <= j && j + 1 < rest.len() implies !((#[trigger] rest[j]) == '_'
                            && rest[j + 1] == '_') by {
                            assert(rest[j] == token@[j + i + 2]);
                            assert(rest[j + 1] == token@[j + i + 3]);
                        }
                        lemma_split_dunder_no_sep(rest);
                        assert(rest =~= token@.subrange(i + 2, len as int));
                        assert(split_dunder(token@)[1] == rest);
                    }
                    tag
                },
                Option::Some(k) => {
                    let tag = String::from_str(token.substring_char(i + 2, k));
                    proof {
                        assert forall|j: int| 0 <= j < k - i - 2 implies !((#[trigger] rest[j]) == '_' && rest[j
                            + 1] == '_') by {
                            assert(rest[j] == token@[j + i + 2]);
                            assert(rest[j + 1] == token@[j + i + 3]);
                        }
                        assert(rest[k - i - 2] == token@[k as int]);
                        assert(rest[k - i - 2 + 1] == token@[k as int + 1]);
                        lemma_split_dunder_step(rest, k - i - 2);
                        assert(rest.take(k - i - 2) =~= token@.subrange(i + 2, k as int));
                        lemma_split_dunder_len(rest.skip(k - i));
                        assert(split_dunder(token@)[1] == rest.take(k - i - 2));
                    }
                    tag
                },
            };
            Option::Some((name, tag))
        },
    }
}

/// A decimal digit character.
pub open spec fn is_digit(c: char) -> bool {
    48 <= c as u32 <= 57
}

/// The numeric value of a digit character.
pub open spec fn digit_val(c: char) -> int {
    c as u32 - 48
}

/// The numeric value of a digit string, most significant digit first.
pub open spec fn dec_value(s: Seq<char>) -> int
    decreases s.len(),
{
    if s.len() == 0 {
        0
    } else {
        dec_value(s.drop_last()) * 10 + digit_val(s.last())
    }
}

/// Whether `s` is a decimal rendering of an unsigned 64-bit integer:
/// non-empty, digits only, value within range.
pub open spec fn is_u64_string(s: Seq<char>) -> bool {
    s.len() > 0 && (forall|j: int| 0 <= j < s.len() ==> is_digit(s[j])) && dec_value(s)
        <= u64::MAX
}

pub proof fn lemma_dec_value_nonneg(s: Seq<char>)
    requires
        forall|j: int| 0 <= j < s.len() ==> is_digit(s[j]),
    ensures
        dec_value(s) >= 0,
    decreases s.len(),
{
    if s.len() > 0 {
        lemma_dec_value_nonneg(s.drop_last());
    }
}

pub proof fn lemma_dec_value_prefix(s: Seq<char>, i: int)
    requires
        0 <= i <= s.len(),
        forall|j: int| 0 <= j < s.len() ==> is_digit(s[j]),
    ensures
        dec_value(s.take(i)) <= dec_value(s),
    decreases s.len() - i,
{
    if i == s.len() {
        assert(s.take(i) =~= s);
    } else {
        lemma_dec_value_prefix(s, i + 1);
        assert(s.take(i + 1).drop_last() =~= s.take(i));
        assert(s.take(i + 1).last() == s[i]);
        lemma_dec_value_nonneg(s.take(i));
        assert(dec_value(s.take(i)) <= dec_value(s.take(i + 1)));
    }
}

/// Parses a non-empty all-digit string as an unsigned 64-bit integer;
/// `None` exactly when `s` is not such a rendering (including overflow).
pub fn parse_u64(s: &str) -> (r: Option<u64>)
    ensures
        match r {
            Option::Some(v) => is_u64_string(s@) && v == dec_value(s@),
            Option::None => !is_u64_string(s@),
        },
{
    let len = s.unicode_len();
    if len == 0 {
        return Option::None;
    }
    let mut acc: u64 = 0;
    let mut i: usize = 0;
    proof {
        assert(s@.take(0) =~= Seq::<char>::empty());
    }
    while i < len
        invariant
            i <= len,
            len == s@.len(),
            forall|j: int| 0 <= j < i ==> is_digit(s@[j]),
            acc == dec_value(s@.take(i as int)),
        decreases len - i,
    {
        let c = s.get_char(i);
        let u = c as u32;
        if u < 48 || u > 57 {
            assert(!is_digit(s@[i as int]));
            return Option::None;
        }
        let d = (u - 48) as u64;
        if acc > (u64::MAX - d) / 10 {
            proof {
                assert(s@.take(i + 1).drop_last() =~= s@.take(i as int));
                assert(s@.take(i + 1).last() == s@[i as int]);
                assert(acc * 10 + d > u64::MAX) by (nonlinear_arith)
                    requires
                        acc > (u64::MAX - d) / 10,
                        d <= 9,
                ;
                assert(dec_value(s@.take(i + 1)) > u64::MAX);
                if forall|j: int| 0 <= j < s@.len() ==> is_digit(s@[j]) {
                    lemma_dec_value_prefix(s@, i + 1);
                    assert(dec_value(s@) > u64::MAX);
                }
            }
            return Option::None;
        }
        proof {
            assert(acc * 10 + d <= u64::MAX) by (nonlinear_arith)
                requires
                    acc <= (u64::MAX - d) / 10,
                    d <= 9,
            ;
            assert(s@.take(i + 1).drop_last() =~= s@.take(i as int));
            assert(s@.take(i + 1).last() == s@[i as int]);
        }
        acc = acc * 10 + d;
        i = i + 1;
    }
    proof {
        assert(s@.take(len as int) =~= s@);
    }
    Option::Some(acc)
}

} // verus!
