use vstd::prelude::*;
use vstd::string::StringExecFns;

verus! {

/// The decimal digit character of `d`.
pub open spec fn digit_char(d: nat) -> char {
    if d == 0 {
        '0'
    } else if d == 1 {
        '1'
    } else if d == 2 {
        '2'
    } else if d == 3 {
        '3'
    } else if d == 4 {
        '4'
    } else if d == 5 {
        '5'
    } else if d == 6 {
        '6'
    } else if d == 7 {
        '7'
    } else if d == 8 {
        '8'
    } else {
        '9'
    }
}

/// The value of a decimal digit character (zero for any other character).
pub open spec fn digit_value(c: char) -> nat {
    if '0' <= c && c <= '9' {
        (c as nat - '0' as nat) as nat
    } else {
        0
    }
}

/// The decimal digits of `n`, most significant first, without leading zeros.
pub open spec fn digits(n: nat) -> Seq<char>
    decreases n,
{
    if n < 10 {
        seq![digit_char(n)]
    } else {
        digits(n / 10).push(digit_char(n % 10))
    }
}

/// The number that the decimal digits `s` write.
pub open spec fn decimal_value(s: Seq<char>) -> nat
    decreases s.len(),
{
    if s.len() == 0 {
        0
    } else {
        decimal_value(s.drop_last()) * 10 + digit_value(s.last())
    }
}

/// `s` with `'0'`s in front, up to `width` characters.
pub open spec fn zero_pad(s: Seq<char>, width: nat) -> Seq<char> {
    if s.len() >= width {
        s
    } else {
        Seq::new((width - s.len()) as nat, |i: int| '0') + s
    }
}

pub open spec fn frame_prefix() -> Seq<char> {
    seq!['f', 'r', 'a', 'm', 'e', '_']
}

pub open spec fn frame_suffix() -> Seq<char> {
    seq!['.', 'p', 'n', 'g']
}

/// The file name of output frame `index`: `frame_`, the index in at least four
/// digits, `.png`.
pub open spec fn frame_file_name_of(index: nat) -> Seq<char> {
    frame_prefix() + zero_pad(digits(index), 4) + frame_suffix()
}

/// The index that a frame file name holds between its prefix and its suffix.
pub open spec fn frame_index_of(name: Seq<char>) -> nat {
    decimal_value(name.subrange(6, name.len() - 4))
}

proof fn lemma_digits_len(n: nat)
    ensures
        digits(n).len() >= 1,
        n < 10 ==> digits(n).len() == 1,
        10 <= n < 100 ==> digits(n).len() == 2,
        100 <= n < 1000 ==> digits(n).len() == 3,
        1000 <= n < 10000 ==> digits(n).len() == 4,
        n >= 1000 ==> digits(n).len() >= 4,
    decreases n,
{
    if n >= 10 {
        lemma_digits_len(n / 10);
    }
}

proof fn lemma_digit_value(d: nat)
    requires
        d < 10,
    ensures
        digit_value(digit_char(d)) == d,
{
}

proof fn lemma_digits_value(n: nat)
    ensures
        decimal_value(digits(n)) == n,
    decreases n,
{
    if n < 10 {
        lemma_digit_value(n);
        assert(digits(n).drop_last() =~= Seq::<char>::empty());
        assert(decimal_value(Seq::<char>::empty()) == 0);
        assert(decimal_value(digits(n)) == decimal_value(digits(n).drop_last()) * 10 + digit_value(
            digits(n).last(),
        ));
    } else {
        lemma_digits_value(n / 10);
        lemma_digit_value(n % 10);
        assert(digits(n).drop_last() =~= digits(n / 10));
        assert(decimal_value(digits(n)) == decimal_value(digits(n / 10)) * 10 + (n % 10));
    }
}

proof fn lemma_zeros_value(k: nat, s: Seq<char>)
    ensures
        decimal_value(Seq::new(k, |i: int| '0') + s) == decimal_value(s),
    decreases s.len(), k,
{
    let z = Seq::new(k, |i: int| '0');
    if s.len() == 0 {
        assert(z + s =~= z);
        if k > 0 {
            lemma_zeros_value((k - 1) as nat, s);
            assert(z.drop_last() =~= Seq::new((k - 1) as nat, |i: int| '0') + s);
        }
    } else {
        lemma_zeros_value(k, s.drop_last());
        assert((z + s).drop_last() =~= z + s.drop_last());
    }
}

/// A frame's file name gives back its index.
pub proof fn lemma_frame_index_round_trip(index: nat)
    ensures
        frame_index_of(frame_file_name_of(index)) == index,
{
    let d = digits(index);
    let p = zero_pad(d, 4);
    let name = frame_file_name_of(index);
    assert(name.subrange(6, name.len() - 4) =~= p);
    lemma_digits_value(index);
    if d.len() < 4 {
        lemma_zeros_value((4 - d.len()) as nat, d);
    }
}

/// Output frame names are strictly increasing with the frame index: a later
/// frame's name holds a greater number, so no two frames share a name, and
/// below ten thousand frames every name has four digits.
pub proof fn lemma_frame_names_increasing(i: nat, j: nat)
    requires
        i < j,
    ensures
        frame_index_of(frame_file_name_of(i)) < frame_index_of(frame_file_name_of(j)),
        frame_file_name_of(i) != frame_file_name_of(j),
        j < 10000 ==> frame_file_name_of(j).len() == 14,
{
    lemma_frame_index_round_trip(i);
    lemma_frame_index_round_trip(j);
    lemma_digits_len(j);
}

/// `a` sorts strictly before `b`: at the first place where they differ, `a`
/// holds the smaller character.
pub open spec fn sorts_before(a: Seq<char>, b: Seq<char>) -> bool {
    exists|k: int|
        0 <= k < a.len() && k < b.len() && a.take(k) == b.take(k) && (a[k] as u32) < (b[k] as u32)
}

/// The four digits of `n`, most significant first.
pub open spec fn four_digits(n: nat) -> Seq<char> {
    seq![
        digit_char(n / 1000),
        digit_char((n / 100) % 10),
        digit_char((n / 10) % 10),
        digit_char(n % 10),
    ]
}

proof fn lemma_padded_four_digits(n: nat)
    requires
        n < 10000,
    ensures
        zero_pad(digits(n), 4) == four_digits(n),
{
    lemma_digits_len(n);
    if n < 10 {
        assert(zero_pad(digits(n), 4) =~= four_digits(n));
    } else if n < 100 {
        assert(digits(n / 10) == seq![digit_char(n / 10)]);
        assert(zero_pad(digits(n), 4) =~= four_digits(n));
    } else if n < 1000 {
        assert(n / 10 / 10 == n / 100);
        assert(digits(n / 10 / 10) == seq![digit_char(n / 100)]);
        assert(digits(n / 10) =~= seq![digit_char(n / 100), digit_char((n / 10) % 10)]);
        assert(zero_pad(digits(n), 4) =~= four_digits(n));
    } else {
        assert(n / 10 / 10 == n / 100);
        assert(n / 100 / 10 == n / 1000);
        assert(digits(n / 100 / 10) == seq![digit_char(n / 1000)]);
        assert(digits(n / 10 / 10) =~= seq![digit_char(n / 1000), digit_char((n / 100) % 10)]);
        assert(digits(n / 10) =~= seq![
            digit_char(n / 1000),
            digit_char((n / 100) % 10),
            digit_char((n / 10) % 10),
        ]);
        assert(zero_pad(digits(n), 4) =~= four_digits(n));
    }
}

proof fn lemma_four_digits_sort(i: nat, j: nat)
    requires
        i < j < 10000,
    ensures
        sorts_before(four_digits(i), four_digits(j)),
{
    let a = four_digits(i);
    let b = four_digits(j);
    if i / 1000 != j / 1000 {
        assert(a.take(0) =~= b.take(0));
        assert((a[0] as u32) < (b[0] as u32));
    } else if i / 100 != j / 100 {
        assert(a.take(1) =~= b.take(1));
        assert((a[1] as u32) < (b[1] as u32));
    } else if i / 10 != j / 10 {
        assert(a.take(2) =~= b.take(2));
        assert((a[2] as u32) < (b[2] as u32));
    } else {
        assert(a.take(3) =~= b.take(3));
        assert((a[3] as u32) < (b[3] as u32));
    }
}

/// Below ten thousand frames, the name of an earlier frame sorts strictly
/// before the name of a later one.
pub proof fn lemma_frame_names_sorted(i: nat, j: nat)
    requires
        i < j < 10000,
    ensures
        sorts_before(frame_file_name_of(i), frame_file_name_of(j)),
{
    lemma_padded_four_digits(i);
    lemma_padded_four_digits(j);
    lemma_four_digits_sort(i, j);
    let a = frame_file_name_of(i);
    let b = frame_file_name_of(j);
    let (da, db) = (four_digits(i), four_digits(j));
    let k = choose|k: int|
        0 <= k < da.len() && k < db.len() && da.take(k) == db.take(k) && (da[k] as u32) < (
        db[k] as u32);
    assert(a.take(6 + k) =~= frame_prefix() + da.take(k));
    assert(b.take(6 + k) =~= frame_prefix() + db.take(k));
    assert(a[6 + k] == da[k]);
    assert(b[6 + k] == db[k]);
}

/// The characters of one decimal digit.
fn digit_str(d: u64) -> (r: &'static str)
    requires
        d < 10,
    ensures
        r@ == seq![digit_char(d as nat)],
{
    proof {
        reveal_strlit("0");
        reveal_strlit("1");
        reveal_strlit("2");
        reveal_strlit("3");
        reveal_strlit("4");
        reveal_strlit("5");
        reveal_strlit("6");
        reveal_strlit("7");
        reveal_strlit("8");
        reveal_strlit("9");
    }
    if d == 0 {
        "0"
    } else if d == 1 {
        "1"
    } else if d == 2 {
        "2"
    } else if d == 3 {
        "3"
    } else if d == 4 {
        "4"
    } else if d == 5 {
        "5"
    } else if d == 6 {
        "6"
    } else if d == 7 {
        "7"
    } else if d == 8 {
        "8"
    } else {
        "9"
    }
}

fn append_digits(s: &mut String, n: u64)
    ensures
        final(s)@ == old(s)@ + digits(n as nat),
    decreases n,
{
    if n >= 10 {
        append_digits(s, n / 10);
    }
    s.append(digit_str(n % 10));
    assert(final(s)@ =~= old(s)@ + digits(n as nat));
}

/// The file name of output frame `index`, such as `frame_0042.png`.
pub fn frame_file_name(index: u64) -> (r: String)
    ensures
        r@ == frame_file_name_of(index as nat),
{
    proof {
        reveal_strlit("frame_");
        reveal_strlit("0");
        reveal_strlit(".png");
        lemma_digits_len(index as nat);
    }
    let mut name = String::from_str("frame_");
    let ghost start = name@;
    if index < 1000 {
        name.append("0");
    }
    if index < 100 {
        name.append("0");
    }
    if index < 10 {
        name.append("0");
    }
    let ghost padded = name@;
    append_digits(&mut name, index);
    name.append(".png");
    proof {
        let d = digits(index as nat);
        assert(padded.subrange(6, padded.len() as int) + d =~= zero_pad(d, 4));
        assert(name@ =~= frame_file_name_of(index as nat));
    }
    name
}

} // verus!
