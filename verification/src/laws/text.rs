//! Numerals, lists of parts, and white space.
use crate::text::decimal;
use crate::text::is_all_digits;
use crate::text::is_white_space;
use crate::text::join;
use crate::text::joined;
use crate::text::same_text;
use crate::text::to_decimal;
use crate::text::trim;
use crate::text::trimmed;
use crate::text::views;
use crate::text::white_space;
use vstd::prelude::*;

verus! {

/// The value of a numeral, read digit by digit in base ten.
pub open spec fn numeral_value(s: Seq<char>) -> int
    decreases s.len(),
{
    if s.len() == 0 {
        0
    } else {
        10 * numeral_value(s.drop_last()) + (s.last() as int - 48)
    }
}

/// `s` is the numeral of `n`: digits that read as `n`, without a zero in front of others.
pub open spec fn is_numeral(s: Seq<char>, n: int) -> bool {
    &&& s.len() > 0
    &&& forall|i: int| 0 <= i < s.len() ==> 48 <= (#[trigger] s[i]) as int <= 57
    &&& numeral_value(s) == n
    &&& s.len() > 1 ==> s[0] as int != 48
}

/// A numeral of more than one digit stands for ten or more, and is a numeral without
/// its last digit.
proof fn numeral_shrinks(s: Seq<char>, n: int)
    requires
        is_numeral(s, n),
        s.len() > 1,
    ensures
        n >= 10,
        is_numeral(s.drop_last(), n / 10),
        s.last() as int == 48 + n % 10,
    decreases s.len(),
{
    let front = s.drop_last();
    assert forall|i: int| 0 <= i < front.len() implies 48 <= (#[trigger] front[i]) as int <= 57 by {
        assert(front[i] == s[i]);
    }
    assert(48 <= s[s.len() - 1] as int <= 57);
    if front.len() > 1 {
        numeral_shrinks(front, numeral_value(front));
    } else {
        assert(front.drop_last() =~= Seq::empty());
        assert(numeral_value(front.drop_last()) == 0);
        assert(numeral_value(front) == front[0] as int - 48);
    }
}

/// A number has one numeral, so different numbers have different numerals.
pub proof fn numerals_are_unique(s: Seq<char>, m: int, t: Seq<char>, n: int)
    requires
        is_numeral(s, m),
        is_numeral(t, n),
    ensures
        s == t <==> m == n,
    decreases s.len(),
{
    if m == n {
        if s.len() > 1 {
            numeral_shrinks(s, n);
        } else {
            assert(s.drop_last() =~= Seq::empty());
            assert(numeral_value(s.drop_last()) == 0);
            assert(48 <= s[0] as int <= 57);
        }
        if t.len() > 1 {
            numeral_shrinks(t, n);
        } else {
            assert(t.drop_last() =~= Seq::empty());
            assert(numeral_value(t.drop_last()) == 0);
            assert(48 <= t[0] as int <= 57);
        }
        if s.len() > 1 {
            numerals_are_unique(s.drop_last(), n / 10, t.drop_last(), n / 10);
            assert(s.drop_last().push(s.last()) =~= s);
            assert(t.drop_last().push(t.last()) =~= t);
        } else {
            assert(s =~= t);
        }
    }
}

/// What is written for a number is its numeral.
pub proof fn decimal_is_numeral(n: nat)
    ensures
        is_numeral(decimal(n), n as int),
    decreases n,
{
    let s = decimal(n);
    if n < 10 {
        assert(s.drop_last() =~= Seq::empty());
        assert(numeral_value(s.drop_last()) == 0);
    } else {
        decimal_is_numeral(n / 10);
        let front = decimal(n / 10);
        assert(s.drop_last() =~= front);
        assert forall|i: int| 0 <= i < s.len() implies 48 <= (#[trigger] s[i]) as int <= 57 by {
            if i < front.len() {
                assert(s[i] == front[i]);
            }
        }
        if front.len() == 1 {
            assert(front.drop_last() =~= Seq::empty());
            assert(numeral_value(front.drop_last()) == 0);
        }
    }
}

/// A number is written as the digits that read as it.
pub proof fn written_number_reads_back(n: u64, res: String)
    requires
        call_ensures(to_decimal, (n,), res),
    ensures
        is_numeral(res@, n as int),
{
    decimal_is_numeral(n as nat);
}

/// The texts of a list of strings.
pub open spec fn texts(parts: Seq<String>) -> Seq<Seq<char>> {
    Seq::new(parts.len(), |i: int| parts[i]@)
}

/// `parts` strung together from the first on: each but the first has `sep` before it.
pub open spec fn strung(parts: Seq<Seq<char>>, sep: Seq<char>) -> Seq<char>
    decreases parts.len(),
{
    if parts.len() == 0 {
        Seq::empty()
    } else if parts.len() == 1 {
        parts[0]
    } else {
        parts[0] + sep + strung(parts.drop_first(), sep)
    }
}

/// One more part is strung on at the end.
proof fn strung_grows(parts: Seq<Seq<char>>, part: Seq<char>, sep: Seq<char>)
    requires
        parts.len() > 0,
    ensures
        strung(parts.push(part), sep) == strung(parts, sep) + sep + part,
    decreases parts.len(),
{
    let longer = parts.push(part);
    assert(longer.drop_first() =~= parts.drop_first().push(part));
    if parts.len() == 1 {
        assert(longer.drop_first() =~= seq![part]);
        assert(strung(seq![part], sep) == part);
        assert(strung(longer, sep) =~= parts[0] + sep + part);
    } else {
        strung_grows(parts.drop_first(), part, sep);
        assert(strung(longer, sep) =~= strung(parts, sep) + sep + part);
    }
}

/// Joined parts are strung together.
pub proof fn joined_is_strung(parts: Seq<Seq<char>>, sep: Seq<char>)
    ensures
        joined(parts, sep) == strung(parts, sep),
    decreases parts.len(),
{
    if parts.len() == 1 {
        assert(joined(parts, sep) =~= parts[0]);
    } else if parts.len() > 1 {
        joined_is_strung(parts.drop_last(), sep);
        strung_grows(parts.drop_last(), parts.last(), sep);
        assert(parts.drop_last().push(parts.last()) =~= parts);
    }
}

/// The views of strings are their texts.
pub proof fn views_are_texts(parts: Seq<String>)
    ensures
        views(parts) == texts(parts),
{
    assert(views(parts) =~= texts(parts));
}

/// To join is to string the parts together, in order, all of them and nothing else.
pub proof fn join_strings_parts_together(parts: &Vec<String>, sep: &str, res: String)
    requires
        call_ensures(join, (parts, sep), res),
    ensures
        res@ == strung(texts(parts@), sep@),
{
    views_are_texts(parts@);
    joined_is_strung(texts(parts@), sep@);
}

/// To join two lists one after the other is to join each, with the separator between.
pub proof fn join_of_two_lists(
    a: &Vec<String>,
    b: &Vec<String>,
    both: &Vec<String>,
    sep: &str,
    joined_a: String,
    joined_b: String,
    joined_both: String,
)
    requires
        call_ensures(join, (a, sep), joined_a),
        call_ensures(join, (b, sep), joined_b),
        call_ensures(join, (both, sep), joined_both),
        both@ == a@ + b@,
    ensures
        joined_both@ == if a@.len() == 0 {
            joined_b@
        } else if b@.len() == 0 {
            joined_a@
        } else {
            joined_a@ + sep@ + joined_b@
        },
{
    join_strings_parts_together(a, sep, joined_a);
    join_strings_parts_together(b, sep, joined_b);
    join_strings_parts_together(both, sep, joined_both);
    assert(texts(both@) =~= texts(a@) + texts(b@));
    strung_over_two(texts(a@), texts(b@), sep@);
}

/// Two lists strung together one after the other.
pub proof fn strung_over_two(a: Seq<Seq<char>>, b: Seq<Seq<char>>, sep: Seq<char>)
    ensures
        strung(a + b, sep) == if a.len() == 0 {
            strung(b, sep)
        } else if b.len() == 0 {
            strung(a, sep)
        } else {
            strung(a, sep) + sep + strung(b, sep)
        },
    decreases a.len(),
{
    if a.len() == 0 {
        assert(a + b =~= b);
    } else if b.len() == 0 {
        assert(a + b =~= a);
    } else {
        assert((a + b).drop_first() =~= a.drop_first() + b);
        if a.len() == 1 {
            assert(a.drop_first() + b =~= b);
        } else {
            strung_over_two(a.drop_first(), b, sep);
            assert(strung(a + b, sep) =~= strung(a, sep) + sep + strung(b, sep));
        }
    }
}

/// The code points with the Unicode property White_Space.
pub open spec fn blank(c: char) -> bool {
    let u = c as int;
    9 <= u <= 13 || u == 32 || u == 133 || u == 160 || u == 5760 || 8192 <= u <= 8202 || u == 8232
        || u == 8233 || u == 8239 || u == 8287 || u == 12288
}

/// `res` is `s` without the white space at its ends: what is cut off is white space,
/// and what is kept neither begins nor ends with it.
pub open spec fn cut_from(res: Seq<char>, s: Seq<char>) -> bool {
    exists|a: int, b: int| #[trigger] cut_at(res, s, a, b)
}

/// `res` is what `s` holds from `a` to `b`, and only white space is outside of that.
pub open spec fn cut_at(res: Seq<char>, s: Seq<char>, a: int, b: int) -> bool {
    &&& 0 <= a <= b <= s.len()
    &&& res == s.subrange(a, b)
    &&& forall|i: int| 0 <= i < a || b <= i < s.len() ==> blank(#[trigger] s[i])
    &&& a < b ==> !blank(s[a]) && !blank(s[b - 1])
}

/// White space is what Unicode says it is.
pub proof fn white_space_is_that_of_unicode(c: char, res: bool)
    requires
        call_ensures(is_white_space, (c,), res),
    ensures
        res == blank(c),
{
}

/// Where the trimmed text stands in the whole one.
proof fn trimmed_is_cut(s: Seq<char>) -> (ends: (int, int))
    ensures
        cut_at(trimmed(s), s, ends.0, ends.1),
    decreases s.len(),
{
    if s.len() > 0 && white_space(s.first()) {
        let rest = s.drop_first();
        let (a, b) = trimmed_is_cut(rest);
        assert(rest.subrange(a, b) =~= s.subrange(a + 1, b + 1));
        assert forall|i: int| 0 <= i < a + 1 || b + 1 <= i < s.len() implies blank(
            #[trigger] s[i],
        ) by {
            if i > 0 {
                assert(rest[i - 1] == s[i]);
            }
        }
        (a + 1, b + 1)
    } else if s.len() > 0 && white_space(s.last()) {
        let rest = s.drop_last();
        let (a, b) = trimmed_is_cut(rest);
        assert(rest.subrange(a, b) =~= s.subrange(a, b));
        assert forall|i: int| 0 <= i < a || b <= i < s.len() implies blank(#[trigger] s[i]) by {
            if i < rest.len() {
                assert(rest[i] == s[i]);
            }
        }
        (a, b)
    } else {
        assert(s.subrange(0, s.len() as int) =~= s);
        (0, s.len() as int)
    }
}

/// A trimmed text is cut from the whole one.
pub proof fn trimmed_is_cut_from(s: Seq<char>)
    ensures
        cut_from(trimmed(s), s),
{
    let (a, b) = trimmed_is_cut(s);
}

/// To trim is to cut off the white space at both ends, and nothing else.
pub proof fn trim_cuts_white_space(s: &str, res: String)
    requires
        call_ensures(trim, (s,), res),
    ensures
        cut_from(res@, s@),
{
    trimmed_is_cut_from(s@);
}

/// A text is cut from itself in only one way.
pub proof fn cut_is_unique(s: Seq<char>, x: Seq<char>, y: Seq<char>)
    requires
        cut_from(x, s),
        cut_from(y, s),
    ensures
        x == y,
{
    let (a, b) = choose|a: int, b: int| #[trigger] cut_at(x, s, a, b);
    let (c, d) = choose|a: int, b: int| #[trigger] cut_at(y, s, a, b);
    if a < b {
        assert(!blank(s[a]) && !blank(s[b - 1]));
    }
    if c < d {
        assert(!blank(s[c]) && !blank(s[d - 1]));
    }
    assert(x =~= y);
}

/// White space around a text that neither begins nor ends with any is cut off again.
pub proof fn padding_is_cut_off(left: Seq<char>, core: Seq<char>, right: Seq<char>)
    requires
        forall|i: int| 0 <= i < left.len() ==> blank(#[trigger] left[i]),
        forall|i: int| 0 <= i < right.len() ==> blank(#[trigger] right[i]),
        core.len() > 0 ==> !blank(core.first()) && !blank(core.last()),
    ensures
        cut_from(core, left + core + right),
{
    let s = left + core + right;
    let a = left.len() as int;
    let b = a + core.len();
    assert(s.subrange(a, b) =~= core);
    assert forall|i: int| 0 <= i < a || b <= i < s.len() implies blank(#[trigger] s[i]) by {
        if i < a {
            assert(s[i] == left[i]);
        } else {
            assert(s[i] == right[i - b]);
        }
    }
    assert(cut_at(core, s, a, b));
}

/// `s` is made of ASCII digits.
pub open spec fn is_digits(s: Seq<char>) -> bool {
    forall|i: int| 0 <= i < s.len() ==> 48 <= (#[trigger] s[i]) as int <= 57
}

/// All characters are looked at, and exactly the ten ASCII digits pass.
pub proof fn digits_are_the_ten_of_ascii(s: &str, res: bool)
    requires
        call_ensures(is_all_digits, (s,), res),
    ensures
        res == is_digits(s@),
{
}

/// Texts are the same exactly if all of their characters are.
pub proof fn same_text_compares_all_characters(a: &str, b: &str, res: bool)
    requires
        call_ensures(same_text, (a, b), res),
    ensures
        res <==> a@.len() == b@.len() && forall|i: int|
            0 <= i < a@.len() ==> #[trigger] a@[i] == b@[i],
{
    if a@.len() == b@.len() && (forall|i: int| 0 <= i < a@.len() ==> #[trigger] a@[i] == b@[i]) {
        assert(a@ =~= b@);
    }
}

} // verus!
