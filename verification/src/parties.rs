use vstd::prelude::*;

use crate::decimal::{decimal_digits, digit_char, signed_decimal_digits};

verus! {

/// Whether `c` is an ASCII decimal digit.
pub open spec fn is_digit(c: char) -> bool {
    '0' <= c && c <= '9'
}

/// The number written by a sequence of decimal digits (0 for none).
pub open spec fn digits_value(s: Seq<char>) -> int
    decreases s.len(),
{
    if s.len() == 0 {
        0
    } else {
        digits_value(s.drop_last()) * 10 + (s.last() as int - 48)
    }
}

/// The text after an optional leading `+`.
pub open spec fn unsigned_digits(s: Seq<char>) -> Seq<char> {
    if s.len() > 0 && s[0] == '+' {
        s.drop_first()
    } else {
        s
    }
}

/// How `u16::from_str` reads a text: an optional `+`, then one or more
/// decimal digits whose value fits in 16 bits; anything else is refused.
pub open spec fn parse_u16_text(s: Seq<char>) -> Option<u16> {
    let d = unsigned_digits(s);
    if d.len() > 0 && (forall|i: int| 0 <= i < d.len() ==> is_digit(#[trigger] d[i])) && digits_value(d)
        <= 65535 {
        Some(digits_value(d) as u16)
    } else {
        None
    }
}

/// The pieces of a text between its commas, as `str::split(',')` yields them
/// (a text without commas is one piece, the empty text included).
pub open spec fn split_commas(s: Seq<char>) -> Seq<Seq<char>>
    decreases s.len(),
{
    if s.len() == 0 {
        seq![Seq::<char>::empty()]
    } else {
        let front = split_commas(s.drop_last());
        if s.last() == ',' {
            front.push(Seq::<char>::empty())
        } else {
            front.drop_last().push(front.last().push(s.last()))
        }
    }
}

/// The party numbers of a comma-separated list, or `None` when a piece is
/// not a 16-bit decimal number.
pub open spec fn party_list(text: Seq<char>) -> Option<Seq<u16>> {
    let pieces = split_commas(text);
    if forall|j: int| 0 <= j < pieces.len() ==> (#[trigger] parse_u16_text(pieces[j])) is Some {
        Some(Seq::new(pieces.len(), |j: int| parse_u16_text(pieces[j])->0))
    } else {
        None
    }
}

/// Why a list of signing parties was refused.
#[derive(Clone, Copy, Debug, PartialEq, Eq)]
pub enum PartiesError {
    /// A piece of the list is not a 16-bit decimal number.
    InvalidParty,
    /// The list names fewer than two parties.
    TooFewParties,
}

/// The parties that take part in the offline stage: the first two of the
/// list, every piece of which must be a party number.
pub open spec fn signing_parties(text: Seq<char>) -> Result<Seq<u16>, PartiesError> {
    match party_list(text) {
        None => Err(PartiesError::InvalidParty),
        Some(list) => if list.len() < 2 {
            Err(PartiesError::TooFewParties)
        } else {
            Ok(seq![list[0], list[1]])
        },
    }
}

proof fn lemma_split_nonempty(s: Seq<char>)
    ensures
        split_commas(s).len() >= 1,
    decreases s.len(),
{
    if s.len() > 0 {
        lemma_split_nonempty(s.drop_last());
    }
}

proof fn lemma_digits_value_grows(s: Seq<char>, k: int)
    requires
        0 <= k <= s.len(),
        forall|i: int| 0 <= i < s.len() ==> is_digit(#[trigger] s[i]),
    ensures
        digits_value(s.subrange(0, k)) <= digits_value(s),
        0 <= digits_value(s),
    decreases s.len(),
{
    if s.len() > 0 {
        let front = s.drop_last();
        assert forall|i: int| 0 <= i < front.len() implies is_digit(#[trigger] front[i]) by {
            assert(front[i] == s[i]);
        }
        if k < s.len() {
            lemma_digits_value_grows(front, k);
            assert(front.subrange(0, k) =~= s.subrange(0, k));
        } else {
            lemma_digits_value_grows(front, 0);
            assert(s.subrange(0, k) =~= s);
        }
        assert(is_digit(s[s.len() - 1]));
    } else {
        assert(s.subrange(0, k) =~= s);
    }
}

fn char_list(text: &str) -> (res: Vec<char>)
    ensures
        res@ == text@,
{
    let mut res: Vec<char> = Vec::new();
    for c in it: text.chars()
        invariant
            res@ == it.seq().take(it.index() as int),
    {
        res.push(c);
    }
    res
}

/// Reads one piece of the list as `u16::from_str` does.
fn parse_party(piece: &Vec<char>) -> (res: Option<u16>)
    ensures
        res == parse_u16_text(piece@),
{
    let ghost d = unsigned_digits(piece@);
    let mut start: usize = 0;
    if piece.len() > 0 && piece[0] == '+' {
        start = 1;
    }
    assert(d =~= piece@.subrange(start as int, piece@.len() as int));
    if start >= piece.len() {
        return None;
    }
    let mut value: u32 = 0;
    let mut i: usize = start;
    while i < piece.len()
        invariant
            start <= i <= piece.len(),
            d == unsigned_digits(piece@),
            d =~= piece@.subrange(start as int, piece@.len() as int),
            value == digits_value(d.subrange(0, i - start)),
            value <= 65535,
            forall|k: int| 0 <= k < i - start ==> is_digit(#[trigger] d[k]),
        decreases piece.len() - i,
    {
        let c = piece[i];
        assert(c == d[i - start]);
        if !('0' <= c && c <= '9') {
            assert(!is_digit(d[i - start]));
            return None;
        }
        let digit: u32 = (c as u32) - 48;
        let next: u32 = value * 10 + digit;
        assert(d.subrange(0, i + 1 - start).drop_last() =~= d.subrange(0, i - start));
        assert(next == digits_value(d.subrange(0, i + 1 - start)));
        if next > 65535 {
            proof {
                if forall|k: int| 0 <= k < d.len() ==> is_digit(#[trigger] d[k]) {
                    lemma_digits_value_grows(d, i + 1 - start);
                }
            }
            return None;
        }
        value = next;
        i = i + 1;
    }
    assert(d.subrange(0, i - start) =~= d);
    Some(value as u16)
}

/// Reads the list of signing parties handed over by the host application
/// (such as `"1,2"`): every comma-separated piece must be a party number, and
/// the first two are the parties of the offline stage.
pub fn parse_signing_parties(text: &str) -> (res: Result<Vec<u16>, PartiesError>)
    ensures
        match res {
            Ok(parties) => signing_parties(text@) == Ok::<Seq<u16>, PartiesError>(parties@),
            Err(e) => signing_parties(text@) == Err::<Seq<u16>, PartiesError>(e),
        },
{
    let chars = char_list(text);
    let ghost s = chars@;
    let mut pieces: Vec<Vec<char>> = Vec::new();
    let mut current: Vec<char> = Vec::new();
    let mut i: usize = 0;
    proof {
        assert(s.take(0) =~= Seq::<char>::empty());
    }
    while i < chars.len()
        invariant
            i <= chars.len(),
            s == chars@,
            pieces@.len() + 1 == split_commas(s.take(i as int)).len(),
            forall|j: int|
                0 <= j < pieces@.len() ==> (#[trigger] pieces@[j])@ == split_commas(
                    s.take(i as int),
                )[j],
            current@ == split_commas(s.take(i as int)).last(),
        decreases chars.len() - i,
    {
        let c = chars[i];
        proof {
            lemma_split_nonempty(s.take(i as int));
            assert(s.take(i + 1).drop_last() =~= s.take(i as int));
        }
        if c == ',' {
            let done = current;
            pieces.push(done);
            current = Vec::new();
        } else {
            current.push(c);
        }
        i = i + 1;
    }
    assert(s.take(i as int) =~= s);
    let ghost all = split_commas(s);
    assert(s == text@);
    let mut list: Vec<u16> = Vec::new();
    let mut j: usize = 0;
    while j < pieces.len()
        invariant
            j <= pieces@.len(),
            all == split_commas(text@),
            pieces@.len() + 1 == all.len(),
            forall|k: int| 0 <= k < pieces@.len() ==> (#[trigger] pieces@[k])@ == all[k],
            current@ == all.last(),
            list@.len() == j,
            forall|k: int| 0 <= k < j ==> parse_u16_text(all[k]) == Some(#[trigger] list@[k]),
        decreases pieces.len() - j,
    {
        match parse_party(&pieces[j]) {
            Some(party) => {
                list.push(party);
            },
            None => {
                assert(parse_u16_text(all[j as int]) is None);
                assert(party_list(text@) is None);
                return Err(PartiesError::InvalidParty);
            },
        }
        j = j + 1;
    }
    match parse_party(&current) {
        Some(party) => {
            list.push(party);
        },
        None => {
            assert(parse_u16_text(all[all.len() - 1]) is None);
            assert(party_list(text@) is None);
            return Err(PartiesError::InvalidParty);
        },
    }
    assert(forall|k: int| 0 <= k < all.len() ==> parse_u16_text(all[k]) == Some(#[trigger] list@[k]));
    assert(party_list(text@) == Some(list@)) by {
        assert(s == text@);
        assert forall|k: int| 0 <= k < all.len() implies (#[trigger] parse_u16_text(all[k])) is Some by {
            assert(parse_u16_text(all[k]) == Some(list@[k]));
        }
        assert(list@ =~= Seq::new(all.len(), |k: int| parse_u16_text(all[k])->0));
    }
    if list.len() < 2 {
        return Err(PartiesError::TooFewParties);
    }
    let first = list[0];
    let second = list[1];
    let parties = vec![first, second];
    assert(parties@ =~= seq![list@[0], list@[1]]);
    Ok(parties)
}

proof fn lemma_decimal_is_digits(n: nat)
    ensures
        decimal_digits(n).len() >= 1,
        forall|i: int| 0 <= i < decimal_digits(n).len() ==> is_digit(#[trigger] decimal_digits(n)[i]),
        digits_value(decimal_digits(n)) == n,
    decreases n,
{
    if n >= 10 {
        lemma_decimal_is_digits(n / 10);
        let s = decimal_digits(n);
        assert(s.drop_last() =~= decimal_digits(n / 10));
        assert(s.last() == digit_char((n % 10) as int));
        assert(s.last() as int == 48 + n % 10);
        assert(digits_value(s) == digits_value(decimal_digits(n / 10)) * 10 + (n % 10));
        assert((n / 10) * 10 + n % 10 == n);
        assert forall|i: int| 0 <= i < s.len() implies is_digit(#[trigger] s[i]) by {
            if i < s.len() - 1 {
                assert(s[i] == decimal_digits(n / 10)[i]);
            } else {
                assert(s[i] == digit_char((n % 10) as int));
            }
        }
    } else {
        let s = decimal_digits(n);
        assert(s.last() as int == 48 + n);
        assert(s.drop_last() =~= Seq::<char>::empty());
        assert(digits_value(s.drop_last()) == 0);
        assert(digits_value(s) == n);
    }
}

proof fn lemma_split_without_commas(u: Seq<char>, t: Seq<char>)
    requires
        forall|i: int| 0 <= i < t.len() ==> #[trigger] t[i] != ',',
    ensures
        split_commas(u + t) == split_commas(u).drop_last().push(split_commas(u).last() + t),
    decreases t.len(),
{
    lemma_split_nonempty(u);
    if t.len() == 0 {
        assert(u + t =~= u);
        assert(split_commas(u).last() + t =~= split_commas(u).last());
        assert(split_commas(u).drop_last().push(split_commas(u).last()) =~= split_commas(u));
    } else {
        let t0 = t.drop_last();
        assert forall|i: int| 0 <= i < t0.len() implies #[trigger] t0[i] != ',' by {
            assert(t0[i] == t[i]);
        }
        lemma_split_without_commas(u, t0);
        assert((u + t).drop_last() =~= u + t0);
        assert((u + t).last() == t.last());
        assert(t.last() != ',');
        assert((split_commas(u).last() + t0).push(t.last()) =~= split_commas(u).last() + t);
        assert(split_commas(u + t0).drop_last() =~= split_commas(u).drop_last());
    }
}

proof fn lemma_split_after_comma(u: Seq<char>, r: Seq<char>)
    ensures
        split_commas(u + seq![','] + r) == split_commas(u) + split_commas(r),
    decreases r.len(),
{
    lemma_split_nonempty(u);
    lemma_split_nonempty(r);
    let head = u + seq![','];
    if r.len() == 0 {
        assert(head + r =~= head);
        assert(head.drop_last() =~= u);
        assert(split_commas(head) =~= split_commas(u) + split_commas(r));
    } else {
        let r0 = r.drop_last();
        lemma_split_after_comma(u, r0);
        lemma_split_nonempty(r0);
        assert((head + r).drop_last() =~= head + r0);
        assert((head + r).last() == r.last());
        let front = split_commas(head + r0);
        assert(front =~= split_commas(u) + split_commas(r0));
        if r.last() == ',' {
            assert(split_commas(head + r) =~= split_commas(u) + split_commas(r));
        } else {
            assert(front.last() == split_commas(r0).last());
            assert(front.drop_last() =~= split_commas(u) + split_commas(r0).drop_last());
            assert(split_commas(head + r) =~= split_commas(u) + split_commas(r));
        }
    }
}

/// Pieces after the first two only have to be party numbers: a list that
/// already names two or more parties gives the same signing parties with
/// any list of party numbers appended after a comma.
pub proof fn later_parties_are_ignored(head: Seq<char>, rest: Seq<char>)
    requires
        party_list(head) is Some,
        party_list(head)->0.len() >= 2,
        party_list(rest) is Some,
    ensures
        signing_parties(head + seq![','] + rest) == signing_parties(head),
{
    lemma_split_after_comma(head, rest);
    let ph = split_commas(head);
    let pr = split_commas(rest);
    let all = split_commas(head + seq![','] + rest);
    assert(all == ph + pr);
    assert forall|j: int| 0 <= j < all.len() implies (#[trigger] parse_u16_text(all[j])) is Some by {
        if j < ph.len() {
            assert(all[j] == ph[j]);
            assert(parse_u16_text(ph[j]) is Some);
        } else {
            assert(all[j] == pr[j - ph.len()]);
            assert(parse_u16_text(pr[j - ph.len()]) is Some);
        }
    }
    let list = party_list(head + seq![','] + rest)->0;
    let lh = party_list(head)->0;
    assert(all[0] == ph[0]);
    assert(all[1] == ph[1]);
    assert(list[0] == lh[0]);
    assert(list[1] == lh[1]);
}

/// The decimal rendering of a number is its canonical decimal text: one or
/// more digits, with no leading zero unless the number is 0, whose value is
/// the number.
pub proof fn decimal_digits_are_canonical(n: nat)
    ensures
        decimal_digits(n).len() >= 1,
        forall|i: int| 0 <= i < decimal_digits(n).len() ==> is_digit(#[trigger] decimal_digits(n)[i]),
        digits_value(decimal_digits(n)) == n,
        decimal_digits(n)[0] == '0' ==> n == 0,
    decreases n,
{
    lemma_decimal_is_digits(n);
    if n >= 10 {
        decimal_digits_are_canonical(n / 10);
        assert(decimal_digits(n)[0] == decimal_digits(n / 10)[0]);
    } else {
        assert(decimal_digits(n)[0] == digit_char(n as int));
    }
}

/// A negative number is rendered as `-` followed by the decimal text of its
/// magnitude, any other number as its decimal text.
pub proof fn signed_decimal_digits_form(v: int)
    ensures
        v < 0 ==> signed_decimal_digits(v) == seq!['-'] + decimal_digits((-v) as nat),
        v >= 0 ==> signed_decimal_digits(v) == decimal_digits(v as nat),
{
}

/// Writing two party numbers in decimal with a comma between them, and
/// reading the list back, gives the two parties in their order.
pub proof fn parties_round_trip(a: u16, b: u16)
    ensures
        signing_parties(decimal_digits(a as nat) + seq![','] + decimal_digits(b as nat)) == Ok::<
            Seq<u16>,
            PartiesError,
        >(seq![a, b]),
{
    let da = decimal_digits(a as nat);
    let db = decimal_digits(b as nat);
    lemma_decimal_is_digits(a as nat);
    lemma_decimal_is_digits(b as nat);
    assert forall|i: int| 0 <= i < da.len() implies #[trigger] da[i] != ',' by {
        assert(is_digit(da[i]));
    }
    assert forall|i: int| 0 <= i < db.len() implies #[trigger] db[i] != ',' by {
        assert(is_digit(db[i]));
    }
    let e = Seq::<char>::empty();
    lemma_split_without_commas(e, da);
    assert(e + da =~= da);
    assert(split_commas(e) =~= seq![e]);
    assert(split_commas(da) =~= seq![da]);
    let head = da + seq![','];
    assert(head =~= da.push(','));
    assert(head.drop_last() =~= da);
    assert(split_commas(head) =~= seq![da, e]);
    lemma_split_without_commas(head, db);
    let text = da + seq![','] + db;
    assert(split_commas(text) =~= seq![da, db]);
    assert(unsigned_digits(da) == da);
    assert(unsigned_digits(db) == db);
    assert(parse_u16_text(da) == Some(a));
    assert(parse_u16_text(db) == Some(b));
    let pieces = split_commas(text);
    assert(forall|j: int| 0 <= j < pieces.len() ==> (#[trigger] parse_u16_text(pieces[j])) is Some);
    assert(party_list(text) =~= Some(seq![a, b]));
}

} // verus!
