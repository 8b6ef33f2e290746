//! Numbers in the text of a statement become parameters, so that statements that differ in their
//! numbers alone can share one prepared statement.

use crate::bytes;
use crate::pg_statement;
use crate::text;
use vstd::prelude::*;
use vstd::string::*;

verus! {

/// How many numbers of a statement become parameters at most.
pub const MAX_NORMALIZED_PARAMS: usize = 32;

/// A number may follow this byte: one of `= > < ( , + - * / %` or a space.
pub open spec fn opens_number(b: u8) -> bool {
    ||| b == 0x3D
    ||| b == 0x3E
    ||| b == 0x3C
    ||| b == 0x20
    ||| b == 0x28
    ||| b == 0x2C
    ||| b == 0x2B
    ||| b == 0x2D
    ||| b == 0x2A
    ||| b == 0x2F
    ||| b == 0x25
}

/// A number may end before this byte: one of `) , ; > < = + - * /` or a space.
pub open spec fn closes_number(b: u8) -> bool {
    ||| b == 0x20
    ||| b == 0x29
    ||| b == 0x2C
    ||| b == 0x3B
    ||| b == 0x3E
    ||| b == 0x3C
    ||| b == 0x3D
    ||| b == 0x2B
    ||| b == 0x2D
    ||| b == 0x2A
    ||| b == 0x2F
}

/// A digit stands at `i`, or a minus sign and a digit behind it.
pub open spec fn starts_number(s: Seq<u8>, i: int) -> bool {
    bytes::is_digit(s[i]) || (s[i] == 0x2D && i + 1 < s.len() && bytes::is_digit(s[i + 1]))
}

/// Where the number at `i` ends: a sign, digits, and a point with digits behind it.
pub open spec fn number_end(s: Seq<u8>, i: int) -> int {
    let whole = bytes::digits_end(
        s,
        if s[i] == 0x2D {
            i + 1
        } else {
            i
        },
    );
    if whole + 1 < s.len() && s[whole] == 0x2E && bytes::is_digit(s[whole + 1]) {
        bytes::digits_end(s, whole + 1)
    } else {
        whole
    }
}

/// A number ends behind its start and within the text.
pub proof fn lemma_number_end(s: Seq<u8>, i: int)
    requires
        0 <= i < s.len(),
        starts_number(s, i),
    ensures
        i < number_end(s, i) <= s.len(),
{
    let start = if s[i] == 0x2D {
        i + 1
    } else {
        i
    };
    bytes::lemma_digits_end(s, start);
    let whole = bytes::digits_end(s, start);
    if whole + 1 < s.len() {
        bytes::lemma_digits_end(s, whole + 1);
    }
}

/// A number stands at `i`, with nothing on either side that it could be a part of.
pub open spec fn literal_at(s: Seq<u8>, i: int) -> bool {
    &&& starts_number(s, i)
    &&& (i == 0 || opens_number(s[i - 1]))
    &&& (number_end(s, i) >= s.len() || closes_number(s[number_end(s, i)]))
}

/// Bytes as characters of the same numbers.
pub open spec fn as_chars(s: Seq<u8>) -> Seq<char> {
    s.map_values(|b: u8| b as char)
}

/// The quotation marks that are open.
pub ghost struct Quotes {
    pub single: bool,
    pub double: bool,
}

/// The quotation marks that are open behind the byte `b`: a mark inside the other kind is none.
pub open spec fn quotes_after(q: Quotes, b: u8) -> Quotes {
    if b == 0x27 && !q.double {
        Quotes { single: !q.single, ..q }
    } else if b == 0x22 && !q.single {
        Quotes { double: !q.double, ..q }
    } else {
        q
    }
}

/// The text from `i` on with its numbers outside quotation marks replaced by `$k+1`, `$k+2` and so
/// on, and the numbers.
pub open spec fn normalized(s: Seq<u8>, i: int, q: Quotes, k: int) -> (Seq<char>, Seq<Seq<char>>)
    decreases s.len() - i,
{
    if i < 0 || i >= s.len() {
        (Seq::empty(), Seq::empty())
    } else if k < MAX_NORMALIZED_PARAMS && !q.single && !q.double && literal_at(s, i) {
        let e = number_end(s, i);
        proof {
            lemma_number_end(s, i);
        }
        let rest = normalized(s, e, q, k + 1);
        (
            seq!['$'] + text::number((k + 1) as nat) + rest.0,
            seq![as_chars(s.subrange(i, e))] + rest.1,
        )
    } else {
        let rest = normalized(s, i + 1, quotes_after(q, s[i]), k);
        (seq![s[i] as char] + rest.0, rest.1)
    }
}

/// A statement whose numbers are worth replacing: not an insertion, and with a condition.
pub open spec fn has_condition(s: Seq<u8>) -> bool {
    !bytes::occurs_at_icase(s, 0, "INSERT".spec_bytes()) && bytes::occurs_icase(
        s,
        "WHERE".spec_bytes(),
    )
}

/// May a number follow this byte?
pub fn is_prev_numeric_boundary(prev: u8) -> (r: bool)
    ensures
        r == opens_number(prev),
{
    prev == 0x3D || prev == 0x3E || prev == 0x3C || prev == 0x20 || prev == 0x28 || prev == 0x2C
        || prev == 0x2B || prev == 0x2D || prev == 0x2A || prev == 0x2F || prev == 0x25
}

/// May a number end at position `i`?
pub fn is_next_numeric_boundary(bytes: &[u8], i: usize) -> (r: bool)
    ensures
        r == (i >= bytes@.len() || closes_number(bytes@[i as int])),
{
    if i >= bytes.len() {
        return true;
    }
    let b: u8 = bytes[i];
    b == 0x20 || b == 0x29 || b == 0x2C || b == 0x3B || b == 0x3E || b == 0x3C || b == 0x3D || b
        == 0x2B || b == 0x2D || b == 0x2A || b == 0x2F
}

fn skip_digits(s: &[u8], from: usize) -> (r: usize)
    requires
        from <= s@.len(),
    ensures
        r == bytes::digits_end(s@, from as int),
        from <= r <= s@.len(),
        from < s@.len() && bytes::is_digit(s@[from as int]) ==> r > from,
{
    let mut i: usize = from;
    while i < s.len() && bytes::is_ascii_digit(s[i])
        invariant
            from <= i <= s@.len(),
            bytes::digits_end(s@, from as int) == bytes::digits_end(s@, i as int),
        decreases s@.len() - i,
    {
        i += 1;
    }
    i
}

fn find_number_end(s: &[u8], i: usize) -> (r: usize)
    requires
        i < s@.len(),
        starts_number(s@, i as int),
    ensures
        r == number_end(s@, i as int),
        i < r <= s@.len(),
{
    let start: usize = if s[i] == 0x2D {
        i + 1
    } else {
        i
    };
    let whole: usize = skip_digits(s, start);
    if whole < s.len() && whole + 1 < s.len() && s[whole] == 0x2E && bytes::is_ascii_digit(
        s[whole + 1],
    ) {
        skip_digits(s, whole + 1)
    } else {
        whole
    }
}

/// The bytes from `from` up to `to` as characters.
fn chars_between(s: &[u8], from: usize, to: usize) -> (r: String)
    requires
        from <= to <= s@.len(),
    ensures
        r@ == as_chars(s@.subrange(from as int, to as int)),
{
    let mut out = String::new();
    let mut i: usize = from;
    while i < to
        invariant
            from <= i <= to <= s@.len(),
            out@ == as_chars(s@.subrange(from as int, i as int)),
        decreases to - i,
    {
        out.push(s[i] as char);
        proof {
            assert(s@.subrange(from as int, i + 1) == s@.subrange(from as int, i as int).push(
                s@[i as int],
            ));
            assert(as_chars(s@.subrange(from as int, i + 1)) == as_chars(
                s@.subrange(from as int, i as int),
            ).push(s@[i as int] as char));
        }
        i += 1;
    }
    out
}

/// The statement with its numbers replaced by parameters, and the numbers. Nothing comes of a
/// statement without a condition or without such numbers.
pub fn normalize_sql_literals_impl(sql: &str) -> (r: Option<(String, Vec<String>)>)
    ensures
        ({
            let n = normalized(
                sql.spec_bytes(),
                0,
                Quotes { single: false, double: false },
                0,
            );
            &&& r is Some == (has_condition(sql.spec_bytes()) && n.1.len() > 0)
            &&& r matches Some((text, numbers)) ==> text@ == n.0 && numbers@.map_values(
                |p: String| p@,
            ) == n.1
        }),
{
    let s = sql.as_bytes();
    if bytes::starts_with_icase(s, "INSERT".as_bytes()) {
        return None;
    }
    proof {
        reveal_strlit("WHERE");
        is_ascii_spec_bytes("WHERE");
    }
    if !bytes::contains_ascii_icase(s, "WHERE".as_bytes()) {
        return None;
    }
    let mut out = String::new();
    let mut params: Vec<String> = Vec::new();
    let mut i: usize = 0;
    let mut in_single = false;
    let mut in_double = false;
    let ghost all = normalized(s@, 0, Quotes { single: false, double: false }, 0);
    proof {
        assert(Seq::<char>::empty() + all.0 == all.0);
        assert(params@.map_values(|p: String| p@) + all.1 == all.1);
    }
    while i < s.len()
        invariant
            i <= s@.len(),
            params@.len() <= MAX_NORMALIZED_PARAMS,
            ({
                let rest = normalized(
                    s@,
                    i as int,
                    Quotes { single: in_single, double: in_double },
                    params@.len() as int,
                );
                &&& out@ + rest.0 == all.0
                &&& params@.map_values(|p: String| p@) + rest.1 == all.1
            }),
        decreases s@.len() - i,
    {
        let ghost q = Quotes { single: in_single, double: in_double };
        let ghost k = params@.len() as int;
        let ghost rest = normalized(s@, i as int, q, k);
        let ghost out_before = out@;
        let ghost params_before = params@;
        let b: u8 = s[i];
        let mut taken = false;
        if params.len() < MAX_NORMALIZED_PARAMS && !in_single && !in_double {
            let is_number_start = bytes::is_ascii_digit(b) || (b == 0x2D && i + 1 < s.len()
                && bytes::is_ascii_digit(s[i + 1]));
            if is_number_start && (i == 0 || is_prev_numeric_boundary(s[i - 1])) {
                let e: usize = find_number_end(s, i);
                if is_next_numeric_boundary(s, e) {
                    let lit = chars_between(s, i, e);
                    let num = text::number_text(params.len() as u64 + 1);
                    out.push('$');
                    text::push_all(&mut out, num.as_slice());
                    params.push(lit);
                    proof {
                        let next = normalized(s@, e as int, q, k + 1);
                        assert(rest.0 == seq!['$'] + text::number((k + 1) as nat) + next.0);
                        assert(out@ + next.0 =~= out_before + rest.0);
                        assert(params@.map_values(|p: String| p@) =~= params_before.map_values(
                            |p: String| p@,
                        ).push(lit@));
                        assert(params@.map_values(|p: String| p@) + next.1
                            =~= params_before.map_values(|p: String| p@) + rest.1);
                    }
                    i = e;
                    taken = true;
                }
            }
        }
        if !taken {
            out.push(b as char);
            if b == 0x27 && !in_double {
                in_single = !in_single;
            } else if b == 0x22 && !in_single {
                in_double = !in_double;
            }
            proof {
                let next = normalized(s@, i + 1, quotes_after(q, b), k);
                assert(rest.0 == seq![b as char] + next.0);
                assert(out@ + next.0 =~= out_before + rest.0);
            }
            i += 1;
        }
    }
    proof {
        assert(out@ =~= all.0);
        assert(params@.map_values(|p: String| p@) =~= all.1);
    }
    if params.len() == 0 {
        return None;
    }
    Some((out, params))
}

/// The text is that of a number in `s` that stands by itself.
pub open spec fn is_number_of(s: Seq<u8>, t: Seq<char>) -> bool {
    exists|a: int|
        0 <= a < s.len() && #[trigger] literal_at(s, a) && t == as_chars(
            s.subrange(a, number_end(s, a)),
        )
}

/// There are never more parameters than the limit, and each is a number of the statement that
/// stands by itself.
pub proof fn law_parameters_are_numbers(s: Seq<u8>, i: int, q: Quotes, k: int)
    requires
        0 <= i,
        0 <= k <= MAX_NORMALIZED_PARAMS,
    ensures
        normalized(s, i, q, k).1.len() <= MAX_NORMALIZED_PARAMS - k,
        forall|j: int|
            0 <= j < normalized(s, i, q, k).1.len() ==> is_number_of(
                s,
                #[trigger] normalized(s, i, q, k).1[j],
            ),
    decreases s.len() - i,
{
    if i < s.len() {
        if k < MAX_NORMALIZED_PARAMS && !q.single && !q.double && literal_at(s, i) {
            let e = number_end(s, i);
            lemma_number_end(s, i);
            law_parameters_are_numbers(s, e, q, k + 1);
            let rest = normalized(s, e, q, k + 1).1;
            let all = normalized(s, i, q, k).1;
            assert forall|j: int| 0 <= j < all.len() implies is_number_of(
                s,
                #[trigger] all[j],
            ) by {
                if j > 0 {
                    assert(all[j] == rest[j - 1]);
                } else {
                    assert(all[0] == as_chars(s.subrange(i, e)));
                }
            }
        } else {
            law_parameters_are_numbers(s, i + 1, quotes_after(q, s[i]), k);
        }
    }
}

/// Text in quotation marks is taken over as it is, with the numbers in it.
pub proof fn law_quoted_text_is_kept(s: Seq<u8>, i: int, q: Quotes, k: int)
    requires
        0 <= i < s.len(),
        q.single || q.double,
    ensures
        normalized(s, i, q, k).0 == seq![s[i] as char] + normalized(
            s,
            i + 1,
            quotes_after(q, s[i]),
            k,
        ).0,
        normalized(s, i, q, k).1 == normalized(s, i + 1, quotes_after(q, s[i]), k).1,
{
}

/// A parameter's mark stands at the start: a dollar sign and one of the numbers from 1 to `m`.
pub open spec fn is_mark(t: Seq<char>, m: int) -> bool {
    &&& t.len() > 0
    &&& t[0] == '$'
    &&& pg_statement::leading_digits(t.skip(1)) > 0
    &&& 1 <= mark_number(t) <= m
}

/// The number behind the dollar sign.
pub open spec fn mark_number(t: Seq<char>) -> int {
    pg_statement::decimal(t.skip(1).take(pg_statement::leading_digits(t.skip(1)) as int)) as int
}

/// The quotation marks that are open behind the character `c`.
pub open spec fn quotes_after_char(q: Quotes, c: char) -> Quotes {
    if c == '\'' && !q.double {
        Quotes { single: !q.single, ..q }
    } else if c == '"' && !q.single {
        Quotes { double: !q.double, ..q }
    } else {
        q
    }
}

/// There are no more digits at the start than characters.
pub proof fn lemma_leading_digits_fit(t: Seq<char>)
    ensures
        pg_statement::leading_digits(t) <= t.len(),
    decreases t.len(),
{
    if t.len() > 0 {
        lemma_leading_digits_fit(t.drop_first());
    }
}

/// The text with each mark outside quotation marks replaced by its parameter.
pub open spec fn filled(t: Seq<char>, q: Quotes, params: Seq<Seq<char>>) -> Seq<char>
    decreases t.len(),
{
    if t.len() == 0 {
        Seq::empty()
    } else if !q.single && !q.double && is_mark(t, params.len() as int) {
        proof {
            lemma_leading_digits_fit(t.skip(1));
        }
        params[mark_number(t) - 1] + filled(
            t.skip(1 + pg_statement::leading_digits(t.skip(1)) as int),
            q,
            params,
        )
    } else {
        seq![t[0]] + filled(t.skip(1), quotes_after_char(q, t[0]), params)
    }
}

/// From `i` on, no text outside quotation marks reads like the mark of one of `m` parameters.
pub open spec fn no_marks(s: Seq<u8>, i: int, q: Quotes, m: int) -> bool
    decreases s.len() - i,
{
    if 0 <= i < s.len() {
        &&& !q.single && !q.double ==> !is_mark(as_chars(s.skip(i)), m)
        &&& no_marks(s, i + 1, quotes_after(q, s[i]), m)
    } else {
        true
    }
}

proof fn lemma_no_marks_behind_digits(s: Seq<u8>, i: int, q: Quotes, m: int)
    requires
        0 <= i <= s.len(),
        no_marks(s, i, q, m),
    ensures
        no_marks(s, bytes::digits_end(s, i), q, m),
    decreases s.len() - i,
{
    if i < s.len() && bytes::is_digit(s[i]) {
        lemma_no_marks_behind_digits(s, i + 1, q, m);
    }
}

proof fn lemma_no_marks_behind_number(s: Seq<u8>, i: int, q: Quotes, m: int)
    requires
        0 <= i < s.len(),
        starts_number(s, i),
        no_marks(s, i, q, m),
    ensures
        no_marks(s, number_end(s, i), q, m),
{
    let start = if s[i] == 0x2D {
        i + 1
    } else {
        i
    };
    bytes::lemma_digits_end(s, start);
    lemma_no_marks_behind_digits(s, start, q, m);
    let whole = bytes::digits_end(s, start);
    if whole + 1 < s.len() && s[whole] == 0x2E {
        lemma_no_marks_behind_digits(s, whole + 1, q, m);
    }
}

proof fn lemma_number_is_read(n: nat)
    ensures
        pg_statement::decimal(text::number(n)) == n,
        text::number(n).len() > 0,
        forall|i: int|
            0 <= i < text::number(n).len() ==> pg_statement::is_digit(
                #[trigger] text::number(n)[i],
            ),
    decreases n,
{
    let t = text::number(n);
    if n < 10 {
        assert(t.drop_last() =~= Seq::empty());
        assert(pg_statement::decimal(t.drop_last()) == 0);
        assert(t.last() as u32 - '0' as u32 == n);
    } else {
        lemma_number_is_read(n / 10);
        assert(t.drop_last() =~= text::number(n / 10));
        assert(t.last() as u32 - '0' as u32 == n % 10);
    }
}

/// Digits that follow something a number may not follow are taken over as they are.
proof fn lemma_digits_are_copied(s: Seq<u8>, j: int, q: Quotes, k: int)
    requires
        0 < j <= s.len(),
        !opens_number(s[j - 1]),
    ensures
        ({
            let t = normalized(s, j, q, k).0;
            let d = bytes::digits_end(s, j) - j;
            &&& 0 <= d <= t.len()
            &&& d <= s.len() - j
            &&& t.take(d) == as_chars(s.skip(j)).take(d)
            &&& pg_statement::leading_digits(t) == d
            &&& pg_statement::leading_digits(as_chars(s.skip(j))) == d
        }),
    decreases s.len() - j,
{
    let t = normalized(s, j, q, k).0;
    let u = as_chars(s.skip(j));
    bytes::lemma_digits_end(s, j);
    if j < s.len() {
        let rest = normalized(s, j + 1, quotes_after(q, s[j]), k).0;
        assert(t == seq![s[j] as char] + rest);
        assert(t.drop_first() =~= rest);
        assert(u.drop_first() =~= as_chars(s.skip(j + 1)));
        assert(u[0] == s[j] as char);
        if bytes::is_digit(s[j]) {
            lemma_digits_are_copied(s, j + 1, quotes_after(q, s[j]), k);
            let d = bytes::digits_end(s, j) - j;
            assert(t.take(d) =~= seq![s[j] as char] + rest.take(d - 1));
            assert(u.take(d) =~= seq![s[j] as char] + u.drop_first().take(d - 1));
        } else {
            assert(t.take(0) =~= u.take(0));
        }
    } else {
        assert(t.take(0) =~= u.take(0));
    }
}

proof fn lemma_put_back(s: Seq<u8>, i: int, q: Quotes, k: int, params: Seq<Seq<char>>)
    requires
        0 <= i <= s.len(),
        0 <= k <= params.len(),
        params.skip(k) == normalized(s, i, q, k).1,
        no_marks(s, i, q, params.len() as int),
    ensures
        filled(normalized(s, i, q, k).0, q, params) == as_chars(s.skip(i)),
    decreases s.len() - i,
{
    let t = normalized(s, i, q, k).0;
    let u = as_chars(s.skip(i));
    if i >= s.len() {
        assert(u =~= Seq::empty());
    } else if k < MAX_NORMALIZED_PARAMS && !q.single && !q.double && literal_at(s, i) {
        let e = number_end(s, i);
        lemma_number_end(s, i);
        let rest = normalized(s, e, q, k + 1);
        let digits = text::number((k + 1) as nat);
        lemma_number_is_read((k + 1) as nat);
        assert(params.skip(k) == seq![as_chars(s.subrange(i, e))] + rest.1);
        assert(params.skip(k).len() > 0);
        assert(params.skip(k)[0] == params[k]);
        assert(params.skip(k + 1) =~= params.skip(k).skip(1));
        assert(params.skip(k).skip(1) =~= rest.1);
        lemma_no_marks_behind_number(s, i, q, params.len() as int);
        lemma_put_back(s, e, q, k + 1, params);
        assert(t =~= seq!['$'] + (digits + rest.0));
        assert(t.skip(1) =~= digits + rest.0);
        let behind = t.skip(1);
        assert forall|x: int| 0 <= x < digits.len() implies pg_statement::is_digit(
            #[trigger] behind[x],
        ) by {
            assert(behind[x] == digits[x]);
        }
        if digits.len() < behind.len() {
            assert(behind[digits.len() as int] == rest.0[0]);
            assert(e < s.len());
            assert(rest.0[0] == s[e] as char || rest.0[0] == '$');
        }
        pg_statement::lemma_leading_digits(behind, digits.len() as int);
        assert(behind.take(digits.len() as int) =~= digits);
        assert(t.skip(1 + digits.len() as int) =~= rest.0);
        assert(u =~= as_chars(s.subrange(i, e)) + as_chars(s.skip(e)));
    } else {
        let rest = normalized(s, i + 1, quotes_after(q, s[i]), k);
        lemma_put_back(s, i + 1, quotes_after(q, s[i]), k, params);
        assert(t =~= seq![s[i] as char] + rest.0);
        assert(t.skip(1) =~= rest.0);
        assert(u =~= seq![s[i] as char] + as_chars(s.skip(i + 1)));
        assert(u.skip(1) =~= as_chars(s.skip(i + 1)));
        if s[i] == 0x24 && !q.single && !q.double {
            lemma_digits_are_copied(s, i + 1, quotes_after(q, s[i]), k);
            assert(!is_mark(t, params.len() as int));
        }
    }
}

/// Putting the parameters back in the place of their marks gives the statement, if it had no text
/// outside quotation marks that reads like one of these marks.
pub proof fn law_parameters_put_back(s: Seq<u8>)
    requires
        ({
            let q = Quotes { single: false, double: false };
            no_marks(s, 0, q, normalized(s, 0, q, 0).1.len() as int)
        }),
    ensures
        ({
            let q = Quotes { single: false, double: false };
            filled(normalized(s, 0, q, 0).0, q, normalized(s, 0, q, 0).1) == as_chars(s)
        }),
{
    let q = Quotes { single: false, double: false };
    let params = normalized(s, 0, q, 0).1;
    assert(params.skip(0) =~= params);
    lemma_put_back(s, 0, q, 0, params);
    assert(s.skip(0) =~= s);
}

/// The first number that stands by itself outside quotation marks becomes the next parameter: its
/// mark takes its place, and it comes first among the parameters.
pub proof fn law_numbers_are_replaced(s: Seq<u8>, i: int, e: int, k: int)
    requires
        0 <= i < e <= s.len(),
        0 <= k < 32,
        i == 0 || opens_number(s[i - 1]),
        e == s.len() || closes_number(s[e]),
        forall|j: int| i <= j < e ==> 0x30 <= #[trigger] s[j] <= 0x39,
    ensures
        ({
            let q = Quotes { single: false, double: false };
            let n = normalized(s, i, q, k);
            let rest = normalized(s, e, q, k + 1);
            &&& n.0 == seq!['$'] + text::number((k + 1) as nat) + rest.0
            &&& n.1 == seq![as_chars(s.subrange(i, e))] + rest.1
        }),
{
    lemma_digits_run(s, i, e);
    assert(0x30 <= s[i] <= 0x39);
    if e < s.len() {
        assert(!bytes::is_digit(s[e]));
        assert(s[e] != 0x2E);
    }
    assert(bytes::digits_end(s, e) == e);
    assert(number_end(s, i) == e);
    assert(literal_at(s, i));
}

proof fn lemma_digits_run(s: Seq<u8>, i: int, e: int)
    requires
        0 <= i <= e <= s.len(),
        forall|j: int| i <= j < e ==> 0x30 <= #[trigger] s[j] <= 0x39,
    ensures
        bytes::digits_end(s, i) == bytes::digits_end(s, e),
    decreases e - i,
{
    if i < e {
        lemma_digits_run(s, i + 1, e);
    }
}

/// No number is replaced in an insertion, nor in a statement without a condition.
pub proof fn law_only_conditions_are_replaced(s: Seq<u8>)
    requires
        has_condition(s),
    ensures
        bytes::occurs_icase(s, "WHERE".spec_bytes()),
        !bytes::occurs_at_icase(s, 0, "INSERT".spec_bytes()),
{
}

/// Digits in a name, or behind anything that a number may not follow, stay.
pub proof fn law_digits_in_names_stay(s: Seq<u8>, i: int, k: int)
    requires
        0 < i < s.len(),
        0x61 <= s[i - 1] <= 0x7A || 0x41 <= s[i - 1] <= 0x5A || s[i - 1] == 0x5F || 0x30 <= s[i - 1]
            <= 0x39,
    ensures
        ({
            let q = Quotes { single: false, double: false };
            let n = normalized(s, i, q, k);
            let rest = normalized(s, i + 1, quotes_after(q, s[i]), k);
            n.0 == seq![s[i] as char] + rest.0 && n.1 == rest.1
        }),
{
}

} // verus!
