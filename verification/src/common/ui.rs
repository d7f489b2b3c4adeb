//! The arithmetic of the reports: human-readable sizes and the summary of a
//! test.
use crate::common::control::{StreamStats, TestResults};
use crate::common::data::Direction;
use vstd::prelude::*;

verus! {

broadcast use vstd::std_specs::hash::group_hash_axioms;

/// Bytes in a kibibyte.
pub const KBYTES: usize = 1024;

/// Bytes in a mebibyte.
pub const MBYTES: usize = 1048576;

/// Bytes in a gibibyte.
pub const GBYTES: usize = 1073741824;

/// Bytes in a tebibyte.
pub const TBYTES: u64 = 1099511627776;

/// The character of a decimal digit.
pub open spec fn digit_char(d: nat) -> char {
    if d == 0 {
        '0'
    } else if d == 1 {
        '1'
    } else if d == 2 {
        '2'
    } else if d == 3 {
        '3'
    } else if d == 4 {
        '4'
    } else if d == 5 {
        '5'
    } else if d == 6 {
        '6'
    } else if d == 7 {
        '7'
    } else if d == 8 {
        '8'
    } else {
        '9'
    }
}

/// The decimal numeral of `n`, without leading zeros.
pub open spec fn decimal(n: nat) -> Seq<char>
    decreases n,
{
    if n < 10 {
        seq![digit_char(n)]
    } else {
        decimal(n / 10).push(digit_char(n % 10))
    }
}

/// Two decimal digits of `n`, with a leading zero below ten.
pub open spec fn two_digits(n: nat) -> Seq<char>
    recommends
        n < 100,
{
    seq![digit_char(n / 10), digit_char(n % 10)]
}

fn digit_str(d: u8) -> (s: &'static str)
    requires
        d < 10,
    ensures
        s@ == seq![digit_char(d as nat)],
{
    proof {
        reveal_strlit("0");
        reveal_strlit("1");
        reveal_strlit("2");
        reveal_strlit("3");
        reveal_strlit("4");
        reveal_strlit("5");
        reveal_strlit("6");
        reveal_strlit("7");
        reveal_strlit("8");
        reveal_strlit("9");
    }
    if d == 0 {
        "0"
    } else if d == 1 {
        "1"
    } else if d == 2 {
        "2"
    } else if d == 3 {
        "3"
    } else if d == 4 {
        "4"
    } else if d == 5 {
        "5"
    } else if d == 6 {
        "6"
    } else if d == 7 {
        "7"
    } else if d == 8 {
        "8"
    } else {
        "9"
    }
}

/// Appends the decimal numeral of `n`.
pub fn push_decimal(s: &mut String, n: u128)
    ensures
        final(s)@ == old(s)@ + decimal(n as nat),
    decreases n,
{
    if n >= 10 {
        push_decimal(s, n / 10);
    }
    let d = (n % 10) as u8;
    s.append(digit_str(d));
    assert(s@ =~= old(s)@ + decimal(n as nat)) by {
        if n >= 10 {
            assert(decimal(n as nat) == decimal((n / 10) as nat).push(digit_char((n % 10) as nat)));
        }
    }
}

/// Whether `c` is one of the ten decimal digits.
pub open spec fn is_digit(c: char) -> bool {
    '0' <= c && c <= '9'
}

/// The number that a decimal digit stands for.
pub open spec fn digit_value(c: char) -> int {
    c as int - '0' as int
}

/// Whether every character of `s` is a decimal digit.
pub open spec fn all_digits(s: Seq<char>) -> bool {
    forall|i: int| 0 <= i < s.len() ==> #[trigger] is_digit(s[i])
}

/// The number that a string of decimal digits denotes, most significant first.
pub open spec fn numeral_value(s: Seq<char>) -> int
    decreases s.len(),
{
    if s.len() == 0 {
        0
    } else {
        numeral_value(s.drop_last()) * 10 + digit_value(s.last())
    }
}

proof fn lemma_digit_char(d: nat)
    requires
        d < 10,
    ensures
        is_digit(digit_char(d)),
        digit_value(digit_char(d)) == d,
        d > 0 ==> digit_char(d) != '0',
{
}

/// The numeral of `n` is a non-empty string of digits without a leading
/// zero (unless `n` is zero), and reading it back gives `n`.
pub proof fn lemma_decimal_reads_back(n: nat)
    ensures
        decimal(n).len() >= 1,
        all_digits(decimal(n)),
        numeral_value(decimal(n)) == n,
        n > 0 ==> decimal(n)[0] != '0',
    decreases n,
{
    if n < 10 {
        lemma_digit_char(n);
        assert(seq![digit_char(n)].drop_last() =~= Seq::<char>::empty());
        reveal_with_fuel(numeral_value, 2);
    } else {
        lemma_decimal_reads_back(n / 10);
        lemma_digit_char(n % 10);
        let d = decimal(n);
        assert(d.drop_last() =~= decimal(n / 10));
        assert(d[0] == decimal(n / 10)[0]);
        assert forall|i: int| 0 <= i < d.len() implies #[trigger] is_digit(d[i]) by {
            if i < d.len() - 1 {
                assert(d[i] == decimal(n / 10)[i]);
            }
        }
    }
}

/// Two digits read back as the number below a hundred that they write.
pub proof fn lemma_two_digits_read_back(m: nat)
    requires
        m < 100,
    ensures
        two_digits(m).len() == 2,
        all_digits(two_digits(m)),
        numeral_value(two_digits(m)) == m,
{
    lemma_digit_char(m / 10);
    lemma_digit_char(m % 10);
    let t = two_digits(m);
    assert(t.drop_last() =~= seq![digit_char(m / 10)]);
    assert(t.drop_last().drop_last() =~= Seq::<char>::empty());
    reveal_with_fuel(numeral_value, 3);
}

/// `s` is a number with two decimals followed by `suffix`, and the number
/// is within half a hundredth of `bytes / unit`.
pub open spec fn denotes_amount(s: Seq<char>, suffix: Seq<char>, unit: nat, bytes: nat) -> bool {
    let num = s.take(s.len() - suffix.len());
    let int_part = num.take(num.len() - 3);
    let frac = num.skip(num.len() - 2);
    let h = numeral_value(int_part) * 100 + numeral_value(frac);
    &&& s.len() >= suffix.len() + 4
    &&& s.skip(s.len() - suffix.len()) == suffix
    &&& num[num.len() - 3] == '.'
    &&& all_digits(int_part)
    &&& all_digits(frac)
    &&& 2 * (h * unit - bytes * 100) <= unit
    &&& 2 * (bytes * 100 - h * unit) <= unit
}

proof fn lemma_fixed_two_denotes(bytes: nat, unit: nat, suffix: Seq<char>)
    requires
        unit > 0,
    ensures
        denotes_amount(fixed_two(bytes, unit) + suffix, suffix, unit, bytes),
{
    let h = div_round_half_even(bytes * 100, unit);
    let q = (bytes * 100) / unit;
    let r = (bytes * 100) % unit;
    assert(bytes * 100 == q * unit + r) by (nonlinear_arith)
        requires
            unit > 0,
            q == (bytes * 100) / unit,
            r == (bytes * 100) % unit,
    ;
    assert(h == q || h == q + 1);
    assert(h == q ==> 2 * r <= unit);
    assert(h == q + 1 ==> 2 * r >= unit);
    assert((q + 1) * unit == q * unit + unit) by (nonlinear_arith);
    lemma_decimal_reads_back(h / 100);
    lemma_two_digits_read_back(h % 100);
    let ip = decimal(h / 100);
    let fr = two_digits(h % 100);
    let num = ip + seq!['.'] + fr;
    let s = num + suffix;
    assert(s.take(s.len() - suffix.len()) =~= num);
    assert(s.skip(s.len() - suffix.len()) =~= suffix);
    assert(num.take(num.len() - 3) =~= ip);
    assert(num.skip(num.len() - 2) =~= fr);
    assert(num[num.len() - 3] == '.');
    assert(h == (h / 100) * 100 + h % 100);
}

/// A size is written in the unit that its range calls for, and the number in
/// front of the unit denotes the byte count: exactly below a KiB, and within
/// half a hundredth of the unit above.
pub proof fn lemma_humanize_bytes_denotes_count(bytes: nat)
    ensures
        bytes < KBYTES ==> ({
            let s = spec_humanize_bytes(bytes);
            let num = s.take(s.len() - 2);
            &&& s.len() >= 3
            &&& s.skip(s.len() - 2) == " B"@
            &&& all_digits(num)
            &&& numeral_value(num) == bytes
        }),
        KBYTES <= bytes < MBYTES ==> denotes_amount(
            spec_humanize_bytes(bytes),
            " KiB"@,
            KBYTES as nat,
            bytes,
        ),
        MBYTES <= bytes < GBYTES ==> denotes_amount(
            spec_humanize_bytes(bytes),
            " MiB"@,
            MBYTES as nat,
            bytes,
        ),
        GBYTES <= bytes < TBYTES ==> denotes_amount(
            spec_humanize_bytes(bytes),
            " GiB"@,
            GBYTES as nat,
            bytes,
        ),
        TBYTES <= bytes ==> denotes_amount(
            spec_humanize_bytes(bytes),
            " TiB"@,
            TBYTES as nat,
            bytes,
        ),
{
    reveal_strlit(" B");
    reveal_strlit(" KiB");
    reveal_strlit(" MiB");
    reveal_strlit(" GiB");
    reveal_strlit(" TiB");
    if bytes < KBYTES {
        lemma_decimal_reads_back(bytes);
        let s = spec_humanize_bytes(bytes);
        assert(s.take(s.len() - 2) =~= decimal(bytes));
        assert(s.skip(s.len() - 2) =~= " B"@);
    } else if bytes < MBYTES {
        lemma_fixed_two_denotes(bytes, KBYTES as nat, " KiB"@);
    } else if bytes < GBYTES {
        lemma_fixed_two_denotes(bytes, MBYTES as nat, " MiB"@);
    } else if bytes < TBYTES {
        lemma_fixed_two_denotes(bytes, GBYTES as nat, " GiB"@);
    } else {
        lemma_fixed_two_denotes(bytes, TBYTES as nat, " TiB"@);
    }
}

/// `a / d` rounded to the nearest integer, ties to the even one.
pub open spec fn div_round_half_even(a: nat, d: nat) -> nat
    recommends
        d > 0,
{
    let q = a / d;
    let r = a % d;
    if 2 * r > d || (2 * r == d && q % 2 == 1) {
        q + 1
    } else {
        q
    }
}

/// `bytes / unit` written with two decimals.
pub open spec fn fixed_two(bytes: nat, unit: nat) -> Seq<char> {
    let h = div_round_half_even(bytes * 100, unit);
    decimal(h / 100) + seq!['.'] + two_digits(h % 100)
}

/// The size of `bytes` in the largest binary unit up to TiB that it reaches.
pub open spec fn spec_humanize_bytes(bytes: nat) -> Seq<char> {
    if bytes < KBYTES {
        decimal(bytes) + " B"@
    } else if bytes < MBYTES {
        fixed_two(bytes, KBYTES as nat) + " KiB"@
    } else if bytes < GBYTES {
        fixed_two(bytes, MBYTES as nat) + " MiB"@
    } else if bytes < TBYTES {
        fixed_two(bytes, GBYTES as nat) + " GiB"@
    } else {
        fixed_two(bytes, TBYTES as nat) + " TiB"@
    }
}

fn push_fixed_two(s: &mut String, bytes: usize, unit: u64)
    requires
        unit > 0,
    ensures
        final(s)@ == old(s)@ + fixed_two(bytes as nat, unit as nat),
{
    let a: u128 = bytes as u128 * 100;
    let d: u128 = unit as u128;
    let q = a / d;
    let r = a % d;
    let h: u128 = if 2 * r > d || (2 * r == d && q % 2 == 1) {
        q + 1
    } else {
        q
    };
    assert(h == div_round_half_even(bytes as nat * 100, unit as nat));
    let ghost before = s@;
    push_decimal(s, h / 100);
    proof {
        reveal_strlit(".");
    }
    s.append(".");
    let f = h % 100;
    s.append(digit_str((f / 10) as u8));
    s.append(digit_str((f % 10) as u8));
    assert(s@ =~= before + fixed_two(bytes as nat, unit as nat));
}

/// Writes a byte count with a binary unit: `"512 B"`, `"1.50 KiB"`, ...,
/// `"2.00 TiB"`. Amounts of a KiB and more have two decimals, rounded to the
/// nearest, ties to even.
pub fn humanize_bytes(bytes: usize) -> (s: String)
    ensures
        s@ == spec_humanize_bytes(bytes as nat),
{
    let mut s = String::new();
    if bytes < KBYTES {
        push_decimal(&mut s, bytes as u128);
        proof {
            reveal_strlit(" B");
        }
        s.append(" B");
    } else if bytes < MBYTES {
        push_fixed_two(&mut s, bytes, KBYTES as u64);
        proof {
            reveal_strlit(" KiB");
        }
        s.append(" KiB");
    } else if bytes < GBYTES {
        push_fixed_two(&mut s, bytes, MBYTES as u64);
        proof {
            reveal_strlit(" MiB");
        }
        s.append(" MiB");
    } else if (bytes as u64) < TBYTES {
        push_fixed_two(&mut s, bytes, GBYTES as u64);
        proof {
            reveal_strlit(" GiB");
        }
        s.append(" GiB");
    } else {
        push_fixed_two(&mut s, bytes, TBYTES);
        proof {
            reveal_strlit(" TiB");
        }
        s.append(" TiB");
    }
    s
}

/// One line of a report: a stream (or the sum of all, without an id), the
/// length of the measurement, the bytes moved and the side that sent them.
#[derive(Debug, Clone, Copy, PartialEq, Eq, Structural)]
pub struct StatsRow {
    pub id: Option<usize>,
    pub duration_millis: u64,
    pub bytes_transferred: usize,
    pub sender: bool,
}

/// The summary printed at the end of a test.
#[derive(Debug)]
pub struct Summary {
    /// A line per stream: each local stream, followed by the remote end of
    /// the same stream when the test is not bidirectional.
    pub rows: Vec<StatsRow>,
    /// With more than one local stream: the sum of the senders and the sum
    /// of the receivers.
    pub totals: Option<(StatsRow, StatsRow)>,
}

/// The line of stream `id`.
pub open spec fn stream_row(id: usize, s: StreamStats) -> StatsRow {
    StatsRow {
        id: Some(id),
        duration_millis: s.duration_millis,
        bytes_transferred: s.bytes_transferred,
        sender: s.sender,
    }
}

/// The stream ends that a summary counts, in the order of `local`: each
/// local stream, then the remote stream of the same id when the direction is
/// not bidirectional and the remote side has that stream (in a bidirectional
/// test each side already holds a sender and a receiver).
pub open spec fn spec_counted(
    local: Seq<(usize, StreamStats)>,
    remote: Map<usize, StreamStats>,
    direction: Direction,
) -> Seq<(usize, StreamStats)>
    decreases local.len(),
{
    if local.len() == 0 {
        seq![]
    } else {
        let (id, s) = local.last();
        let with_local = spec_counted(local.drop_last(), remote, direction).push((id, s));
        if direction != Direction::Bidirectional && remote.contains_key(id) {
            with_local.push((id, remote[id]))
        } else {
            with_local
        }
    }
}

/// The bytes moved by the counted ends on the given side.
pub open spec fn sum_bytes(c: Seq<(usize, StreamStats)>, sender: bool) -> nat
    decreases c.len(),
{
    if c.len() == 0 {
        0
    } else {
        sum_bytes(c.drop_last(), sender) + if c.last().1.sender == sender {
            c.last().1.bytes_transferred as nat
        } else {
            0
        }
    }
}

/// The longest measurement among the counted ends on the given side, or 0.
pub open spec fn max_duration(c: Seq<(usize, StreamStats)>, sender: bool) -> nat
    decreases c.len(),
{
    if c.len() == 0 {
        0
    } else {
        let prev = max_duration(c.drop_last(), sender);
        let d = c.last().1.duration_millis as nat;
        if c.last().1.sender == sender && d > prev {
            d
        } else {
            prev
        }
    }
}

/// All the bytes of the counted ends, whatever their side.
pub open spec fn all_bytes(c: Seq<(usize, StreamStats)>) -> nat
    decreases c.len(),
{
    if c.len() == 0 {
        0
    } else {
        all_bytes(c.drop_last()) + c.last().1.bytes_transferred as nat
    }
}

/// Every counted end adds its bytes to exactly one of the two totals, and
/// the longest measurement of a side is one of that side's measurements (or
/// 0 when it has none) and no shorter than any of them.
pub proof fn lemma_totals_split_by_side(c: Seq<(usize, StreamStats)>, sender: bool)
    ensures
        sum_bytes(c, true) + sum_bytes(c, false) == all_bytes(c),
        forall|i: int|
            0 <= i < c.len() && c[i].1.sender == sender ==> #[trigger] c[i].1.duration_millis
                <= max_duration(c, sender),
        max_duration(c, sender) == 0 || exists|i: int|
            0 <= i < c.len() && c[i].1.sender == sender && #[trigger] c[i].1.duration_millis
                == max_duration(c, sender),
    decreases c.len(),
{
    if c.len() > 0 {
        let p = c.drop_last();
        lemma_totals_split_by_side(p, sender);
        assert forall|i: int|
            0 <= i < c.len() && c[i].1.sender == sender implies #[trigger] c[i].1.duration_millis
            <= max_duration(c, sender) by {
            if i < c.len() - 1 {
                assert(c[i] == p[i]);
            }
        }
        if max_duration(c, sender) != 0 {
            if max_duration(c, sender) != max_duration(p, sender) {
                assert(c[c.len() - 1].1.duration_millis == max_duration(c, sender));
            } else {
                let i = choose|i: int|
                    0 <= i < p.len() && p[i].1.sender == sender && #[trigger] p[i].1.duration_millis
                        == max_duration(p, sender);
                assert(c[i] == p[i]);
            }
        }
    }
}

/// The summary counts every local stream, and its remote end exactly when
/// the test is one-way and the remote side has that stream; in a
/// bidirectional test it counts the local streams alone, in their order.
pub proof fn lemma_counted_ends(
    local: Seq<(usize, StreamStats)>,
    remote: Map<usize, StreamStats>,
    direction: Direction,
)
    ensures
        forall|i: int| 0 <= i < local.len() ==> spec_counted(local, remote, direction).contains(
            #[trigger] local[i],
        ),
        forall|i: int|
            0 <= i < local.len() && direction != Direction::Bidirectional && remote.contains_key(
                #[trigger] local[i].0,
            ) ==> spec_counted(local, remote, direction).contains((local[i].0, remote[local[i].0])),
        forall|k: int|
            0 <= k < spec_counted(local, remote, direction).len() ==> local.contains(
                #[trigger] spec_counted(local, remote, direction)[k],
            ) || (direction != Direction::Bidirectional && remote.contains_key(
                spec_counted(local, remote, direction)[k].0,
            ) && spec_counted(local, remote, direction)[k].1 == remote[spec_counted(
                local,
                remote,
                direction,
            )[k].0] && exists|j: int|
                0 <= j < local.len() && #[trigger] local[j].0 == spec_counted(
                    local,
                    remote,
                    direction,
                )[k].0),
        direction == Direction::Bidirectional ==> spec_counted(local, remote, direction) == local,
    decreases local.len(),
{
    if local.len() > 0 {
        let p = local.drop_last();
        let (id, st) = local.last();
        let n = local.len() - 1;
        lemma_counted_ends(p, remote, direction);
        let cp = spec_counted(p, remote, direction);
        let c = spec_counted(local, remote, direction);
        let with_local = cp.push((id, st));
        assert(local[n] == (id, st));
        assert(with_local[cp.len() as int] == (id, st));
        assert forall|i: int| 0 <= i < local.len() implies c.contains(#[trigger] local[i]) by {
            if i < n {
                assert(local[i] == p[i]);
                let k = cp.index_of(p[i]);
                assert(c[k] == cp[k]);
            } else {
                assert(c[cp.len() as int] == local[i]);
            }
        }
        assert forall|i: int|
            0 <= i < local.len() && direction != Direction::Bidirectional && remote.contains_key(
                #[trigger] local[i].0,
            ) implies c.contains((local[i].0, remote[local[i].0])) by {
            if i < n {
                assert(local[i] == p[i]);
                let k = cp.index_of((p[i].0, remote[p[i].0]));
                assert(c[k] == cp[k]);
            } else {
                assert(c[cp.len() as int + 1] == (id, remote[id]));
            }
        }
        assert forall|k: int| 0 <= k < c.len() implies local.contains(#[trigger] c[k]) || (direction
            != Direction::Bidirectional && remote.contains_key(c[k].0) && c[k].1 == remote[c[k].0]
            && exists|j: int| 0 <= j < local.len() && #[trigger] local[j].0 == c[k].0) by {
            if k < cp.len() {
                assert(c[k] == cp[k]);
                if p.contains(cp[k]) {
                    let j = p.index_of(cp[k]);
                    assert(local[j] == p[j]);
                } else {
                    let j = choose|j: int| 0 <= j < p.len() && #[trigger] p[j].0 == cp[k].0;
                    assert(local[j] == p[j]);
                }
            } else if k == cp.len() {
                assert(local[n] == c[k]);
            } else {
                assert(local[n].0 == c[k].0);
            }
        }
        if direction == Direction::Bidirectional {
            assert(local =~= p.push((id, st)));
        }
    }
}

/// The sums of a summary fit in a `usize`.
pub open spec fn spec_summary_fits(
    local: Seq<(usize, StreamStats)>,
    remote: Map<usize, StreamStats>,
    direction: Direction,
) -> bool {
    let c = spec_counted(local, remote, direction);
    sum_bytes(c, true) <= usize::MAX && sum_bytes(c, false) <= usize::MAX
}

/// The sum line of one side.
pub open spec fn total_row(c: Seq<(usize, StreamStats)>, sender: bool) -> StatsRow {
    StatsRow {
        id: None,
        duration_millis: max_duration(c, sender) as u64,
        bytes_transferred: sum_bytes(c, sender) as usize,
        sender,
    }
}

proof fn lemma_counted_step(
    local: Seq<(usize, StreamStats)>,
    remote: Map<usize, StreamStats>,
    direction: Direction,
    i: int,
)
    requires
        0 <= i < local.len(),
    ensures
        ({
            let (id, s) = local[i];
            let prev = spec_counted(local.take(i), remote, direction);
            let with_local = prev.push((id, s));
            spec_counted(local.take(i + 1), remote, direction) == if direction
                != Direction::Bidirectional && remote.contains_key(id) {
                with_local.push((id, remote[id]))
            } else {
                with_local
            }
        }),
{
    assert(local.take(i + 1).drop_last() =~= local.take(i));
}

proof fn lemma_sum_push(c: Seq<(usize, StreamStats)>, x: (usize, StreamStats), sender: bool)
    ensures
        sum_bytes(c.push(x), sender) == sum_bytes(c, sender) + if x.1.sender == sender {
            x.1.bytes_transferred as nat
        } else {
            0
        },
        max_duration(c.push(x), sender) == if x.1.sender == sender && x.1.duration_millis
            > max_duration(c, sender) {
            x.1.duration_millis as nat
        } else {
            max_duration(c, sender)
        },
{
    assert(c.push(x).drop_last() =~= c);
}

proof fn lemma_counted_prefix_sum(
    local: Seq<(usize, StreamStats)>,
    remote: Map<usize, StreamStats>,
    direction: Direction,
    i: int,
    sender: bool,
)
    requires
        0 <= i <= local.len(),
    ensures
        sum_bytes(spec_counted(local.take(i), remote, direction), sender) <= sum_bytes(
            spec_counted(local, remote, direction),
            sender,
        ),
        max_duration(spec_counted(local.take(i), remote, direction), sender) <= u64::MAX,
    decreases local.len() - i,
{
    if i < local.len() {
        lemma_counted_step(local, remote, direction, i);
        let (id, s) = local[i];
        let prev = spec_counted(local.take(i), remote, direction);
        lemma_sum_push(prev, (id, s), sender);
        if direction != Direction::Bidirectional && remote.contains_key(id) {
            lemma_sum_push(prev.push((id, s)), (id, remote[id]), sender);
        }
        lemma_counted_prefix_sum(local, remote, direction, i + 1, sender);
    } else {
        assert(local.take(i) =~= local);
        lemma_max_duration_bounded(spec_counted(local, remote, direction), sender);
    }
}

proof fn lemma_max_duration_bounded(c: Seq<(usize, StreamStats)>, sender: bool)
    ensures
        max_duration(c, sender) <= u64::MAX,
    decreases c.len(),
{
    if c.len() > 0 {
        lemma_max_duration_bounded(c.drop_last(), sender);
    }
}

/// The bytes on the given side that one local stream adds to the totals:
/// its own, and its remote end's when that end is counted.
pub open spec fn entry_bytes(
    e: (usize, StreamStats),
    remote: Map<usize, StreamStats>,
    direction: Direction,
    sender: bool,
) -> nat {
    let own: nat = if e.1.sender == sender {
        e.1.bytes_transferred as nat
    } else {
        0
    };
    let other: nat = if direction != Direction::Bidirectional && remote.contains_key(e.0)
        && remote[e.0].sender == sender {
        remote[e.0].bytes_transferred as nat
    } else {
        0
    };
    own + other
}

/// The longest measurement on the given side among one local stream and its
/// counted remote end, or 0.
pub open spec fn entry_duration(
    e: (usize, StreamStats),
    remote: Map<usize, StreamStats>,
    direction: Direction,
    sender: bool,
) -> nat {
    let own: nat = if e.1.sender == sender {
        e.1.duration_millis as nat
    } else {
        0
    };
    let other: nat = if direction != Direction::Bidirectional && remote.contains_key(e.0)
        && remote[e.0].sender == sender {
        remote[e.0].duration_millis as nat
    } else {
        0
    };
    if own >= other {
        own
    } else {
        other
    }
}

spec fn entries_bytes(
    local: Seq<(usize, StreamStats)>,
    remote: Map<usize, StreamStats>,
    direction: Direction,
    sender: bool,
) -> nat
    decreases local.len(),
{
    if local.len() == 0 {
        0
    } else {
        entries_bytes(local.drop_last(), remote, direction, sender) + entry_bytes(
            local.last(),
            remote,
            direction,
            sender,
        )
    }
}

spec fn entries_duration(
    local: Seq<(usize, StreamStats)>,
    remote: Map<usize, StreamStats>,
    direction: Direction,
    sender: bool,
) -> nat
    decreases local.len(),
{
    if local.len() == 0 {
        0
    } else {
        let prev = entries_duration(local.drop_last(), remote, direction, sender);
        let d = entry_duration(local.last(), remote, direction, sender);
        if d > prev {
            d
        } else {
            prev
        }
    }
}

proof fn lemma_totals_per_entry(
    local: Seq<(usize, StreamStats)>,
    remote: Map<usize, StreamStats>,
    direction: Direction,
    sender: bool,
)
    ensures
        sum_bytes(spec_counted(local, remote, direction), sender) == entries_bytes(
            local,
            remote,
            direction,
            sender,
        ),
        max_duration(spec_counted(local, remote, direction), sender) == entries_duration(
            local,
            remote,
            direction,
            sender,
        ),
    decreases local.len(),
{
    if local.len() > 0 {
        let (id, s) = local.last();
        let prev = spec_counted(local.drop_last(), remote, direction);
        lemma_totals_per_entry(local.drop_last(), remote, direction, sender);
        lemma_sum_push(prev, (id, s), sender);
        if direction != Direction::Bidirectional && remote.contains_key(id) {
            lemma_sum_push(prev.push((id, s)), (id, remote[id]), sender);
        }
    }
}

proof fn lemma_entries_remove(
    local: Seq<(usize, StreamStats)>,
    remote: Map<usize, StreamStats>,
    direction: Direction,
    sender: bool,
    j: int,
)
    requires
        0 <= j < local.len(),
    ensures
        entries_bytes(local, remote, direction, sender) == entries_bytes(
            local.remove(j),
            remote,
            direction,
            sender,
        ) + entry_bytes(local[j], remote, direction, sender),
        ({
            let rest = entries_duration(local.remove(j), remote, direction, sender);
            let d = entry_duration(local[j], remote, direction, sender);
            entries_duration(local, remote, direction, sender) == if d > rest {
                d
            } else {
                rest
            }
        }),
    decreases local.len(),
{
    if j == local.len() - 1 {
        assert(local.remove(j) =~= local.drop_last());
    } else {
        lemma_entries_remove(local.drop_last(), remote, direction, sender, j);
        assert(local.drop_last().remove(j) =~= local.remove(j).drop_last());
        assert(local.remove(j).last() == local.last());
        assert(local.remove(j).len() > 0);
    }
}

/// The totals of a summary do not depend on the order in which the local
/// streams are walked: any two orders of the same entries give the same sums
/// and the same longest measurements.
pub proof fn lemma_totals_independent_of_order(
    a: Seq<(usize, StreamStats)>,
    b: Seq<(usize, StreamStats)>,
    remote: Map<usize, StreamStats>,
    direction: Direction,
)
    requires
        a.to_multiset() == b.to_multiset(),
    ensures
        total_row(spec_counted(a, remote, direction), true) == total_row(
            spec_counted(b, remote, direction),
            true,
        ),
        total_row(spec_counted(a, remote, direction), false) == total_row(
            spec_counted(b, remote, direction),
            false,
        ),
{
    lemma_entries_permutation(a, b, remote, direction, true);
    lemma_entries_permutation(a, b, remote, direction, false);
    lemma_totals_per_entry(a, remote, direction, true);
    lemma_totals_per_entry(b, remote, direction, true);
    lemma_totals_per_entry(a, remote, direction, false);
    lemma_totals_per_entry(b, remote, direction, false);
}

proof fn lemma_entries_permutation(
    a: Seq<(usize, StreamStats)>,
    b: Seq<(usize, StreamStats)>,
    remote: Map<usize, StreamStats>,
    direction: Direction,
    sender: bool,
)
    requires
        a.to_multiset() == b.to_multiset(),
    ensures
        entries_bytes(a, remote, direction, sender) == entries_bytes(b, remote, direction, sender),
        entries_duration(a, remote, direction, sender) == entries_duration(
            b,
            remote,
            direction,
            sender,
        ),
    decreases a.len(),
{
    broadcast use vstd::seq_lib::group_to_multiset_ensures;
    broadcast use vstd::multiset::group_multiset_axioms;

    if a.len() == 0 {
        vstd::seq_lib::to_multiset_len(a);
        vstd::seq_lib::to_multiset_len(b);
        assert(b.len() == 0);
        assert(b =~= Seq::<(usize, StreamStats)>::empty());
    } else {
        let x = a.last();
        let rest = a.drop_last();
        assert(a =~= rest.push(x));
        assert(a.to_multiset() =~= rest.to_multiset().insert(x));
        assert(b.to_multiset().count(x) > 0);
        assert(b.contains(x));
        let j = b.index_of(x);
        assert(b.remove(j).to_multiset() =~= b.to_multiset().remove(x));
        assert(rest.to_multiset() =~= b.remove(j).to_multiset());
        lemma_entries_permutation(rest, b.remove(j), remote, direction, sender);
        lemma_entries_remove(b, remote, direction, sender, j);
    }
}

/// `entries` lists every stream of `m` exactly once, in some order.
pub open spec fn is_walk_of(entries: Seq<(usize, StreamStats)>, m: Map<usize, StreamStats>) -> bool {
    &&& entries.no_duplicates()
    &&& entries.len() == m.len()
    &&& forall|i: int|
        0 <= i < entries.len() ==> #[trigger] m.contains_key(entries[i].0) && m[entries[i].0]
            == entries[i].1
    &&& forall|id: usize| #[trigger] m.contains_key(id) ==> entries.contains((id, m[id]))
}

/// However the local results are walked, the summary has the same totals.
pub proof fn lemma_walks_give_same_totals(
    a: Seq<(usize, StreamStats)>,
    b: Seq<(usize, StreamStats)>,
    local: Map<usize, StreamStats>,
    remote: Map<usize, StreamStats>,
    direction: Direction,
)
    requires
        is_walk_of(a, local),
        is_walk_of(b, local),
    ensures
        total_row(spec_counted(a, remote, direction), true) == total_row(
            spec_counted(b, remote, direction),
            true,
        ),
        total_row(spec_counted(a, remote, direction), false) == total_row(
            spec_counted(b, remote, direction),
            false,
        ),
{
    broadcast use vstd::seq_lib::group_to_multiset_ensures;

    a.lemma_multiset_has_no_duplicates();
    b.lemma_multiset_has_no_duplicates();
    assert forall|x: (usize, StreamStats)| a.contains(x) <==> b.contains(x) by {
        if a.contains(x) {
            let i = a.index_of(x);
            assert(local.contains_key(a[i].0));
        }
        if b.contains(x) {
            let i = b.index_of(x);
            assert(local.contains_key(b[i].0));
        }
    }
    assert(a.to_multiset() =~= b.to_multiset()) by {
        assert forall|x: (usize, StreamStats)| a.to_multiset().count(x) == b.to_multiset().count(
            x,
        ) by {
            if a.contains(x) {
                assert(a.to_multiset().contains(x));
                assert(b.to_multiset().contains(x));
            }
        }
    }
    lemma_totals_independent_of_order(a, b, remote, direction);
}

/// The streams of a result, one entry per stream, in the order in which the
/// map is walked.
pub fn result_entries(results: &TestResults) -> (entries: Vec<(usize, StreamStats)>)
    ensures
        is_walk_of(entries@, results.streams@),
{
    let mut entries: Vec<(usize, StreamStats)> = Vec::new();
    let m = &results.streams;
    let ghost walk = vstd::std_specs::iter::IteratorSpec::remaining(&vstd::std_specs::hash::spec_hash_map_iter(m));
    for item in it: m.iter()
        invariant
            it.seq() == walk,
            entries@ == it.seq().take(it.index() as int).map_values(
                |p: (&usize, &StreamStats)| (*p.0, *p.1),
            ),
    {
        let (id, stats) = item;
        entries.push((*id, *stats));
        proof {
            assert(it.seq().take(it.index() as int + 1).map_values(
                |p: (&usize, &StreamStats)| (*p.0, *p.1),
            ) =~= entries@);
        }
    }
    proof {
        assert(walk.take(walk.len() as int) =~= walk);
        assert forall|id: usize| #[trigger]
            results.streams@.contains_key(id) implies entries@.contains(
            (id, results.streams@[id]),
        ) by {
            let j = walk.index_of((&id, &results.streams@[id]));
            assert(entries@[j] == (id, results.streams@[id]));
        }
    }
    entries
}

fn row_of(id: usize, s: StreamStats) -> (r: StatsRow)
    ensures
        r == stream_row(id, s),
{
    StatsRow {
        id: Some(id),
        duration_millis: s.duration_millis,
        bytes_transferred: s.bytes_transferred,
        sender: s.sender,
    }
}

/// Whether the sums of a summary fit in a `usize`.
pub fn summary_fits(local: &Vec<(usize, StreamStats)>, remote: &TestResults, direction: Direction) -> (b: bool)
    ensures
        b == spec_summary_fits(local@, remote.streams@, direction),
{
    let n = local.len();
    let mut sender_bytes: u128 = 0;
    let mut receiver_bytes: u128 = 0;
    let max: u128 = usize::MAX as u128;
    let mut i: usize = 0;
    while i < n
        invariant
            n == local@.len(),
            i <= n,
            sender_bytes == sum_bytes(spec_counted(local@.take(i as int), remote.streams@, direction), true),
            receiver_bytes == sum_bytes(spec_counted(local@.take(i as int), remote.streams@, direction), false),
            sender_bytes <= max,
            receiver_bytes <= max,
            max == usize::MAX,
        decreases n - i,
    {
        let (id, st) = local[i];
        proof {
            lemma_counted_step(local@, remote.streams@, direction, i as int);
            lemma_sum_push(spec_counted(local@.take(i as int), remote.streams@, direction), (id, st), true);
            lemma_sum_push(spec_counted(local@.take(i as int), remote.streams@, direction), (id, st), false);
        }
        let ghost prev = spec_counted(local@.take(i as int), remote.streams@, direction);
        if st.sender {
            sender_bytes = sender_bytes + st.bytes_transferred as u128;
        } else {
            receiver_bytes = receiver_bytes + st.bytes_transferred as u128;
        }
        if direction != Direction::Bidirectional {
            match remote.streams.get(&id) {
                Some(r) => {
                    proof {
                        lemma_sum_push(prev.push((id, st)), (id, *r), true);
                        lemma_sum_push(prev.push((id, st)), (id, *r), false);
                    }
                    if r.sender {
                        sender_bytes = sender_bytes + r.bytes_transferred as u128;
                    } else {
                        receiver_bytes = receiver_bytes + r.bytes_transferred as u128;
                    }
                },
                None => {},
            }
        }
        proof {
            lemma_counted_prefix_sum(local@, remote.streams@, direction, i as int + 1, true);
            lemma_counted_prefix_sum(local@, remote.streams@, direction, i as int + 1, false);
        }
        if sender_bytes > max || receiver_bytes > max {
            return false;
        }
        i = i + 1;
    }
    assert(local@.take(n as int) =~= local@);
    true
}

/// The summary of a test from the entries of the local results, in the order
/// given, and the remote results.
pub fn summarize(local: &Vec<(usize, StreamStats)>, remote: &TestResults, direction: Direction) -> (summary: Summary)
    requires
        spec_summary_fits(local@, remote.streams@, direction),
    ensures
        summary.rows@ == spec_counted(local@, remote.streams@, direction).map_values(
            |p: (usize, StreamStats)| stream_row(p.0, p.1),
        ),
        summary.totals == (if local@.len() > 1 {
            let c = spec_counted(local@, remote.streams@, direction);
            Some((total_row(c, true), total_row(c, false)))
        } else {
            None
        }),
{
    let n = local.len();
    let mut rows: Vec<StatsRow> = Vec::new();
    let mut sender_bytes: usize = 0;
    let mut receiver_bytes: usize = 0;
    let mut sender_duration: u64 = 0;
    let mut receiver_duration: u64 = 0;
    let mut i: usize = 0;
    while i < n
        invariant
            n == local@.len(),
            i <= n,
            spec_summary_fits(local@, remote.streams@, direction),
            ({
                let c = spec_counted(local@.take(i as int), remote.streams@, direction);
                &&& rows@ == c.map_values(|p: (usize, StreamStats)| stream_row(p.0, p.1))
                &&& sender_bytes == sum_bytes(c, true)
                &&& receiver_bytes == sum_bytes(c, false)
                &&& sender_duration == max_duration(c, true)
                &&& receiver_duration == max_duration(c, false)
            }),
        decreases n - i,
    {
        let (id, st) = local[i];
        let ghost prev = spec_counted(local@.take(i as int), remote.streams@, direction);
        proof {
            lemma_counted_step(local@, remote.streams@, direction, i as int);
            lemma_sum_push(prev, (id, st), true);
            lemma_sum_push(prev, (id, st), false);
            lemma_counted_prefix_sum(local@, remote.streams@, direction, i as int + 1, true);
            lemma_counted_prefix_sum(local@, remote.streams@, direction, i as int + 1, false);
            if direction != Direction::Bidirectional && remote.streams@.contains_key(id) {
                lemma_sum_push(prev.push((id, st)), (id, remote.streams@[id]), true);
                lemma_sum_push(prev.push((id, st)), (id, remote.streams@[id]), false);
            }
        }
        rows.push(row_of(id, st));
        if st.sender {
            sender_bytes = sender_bytes + st.bytes_transferred;
            if st.duration_millis > sender_duration {
                sender_duration = st.duration_millis;
            }
        } else {
            receiver_bytes = receiver_bytes + st.bytes_transferred;
            if st.duration_millis > receiver_duration {
                receiver_duration = st.duration_millis;
            }
        }
        proof {
            assert(rows@ =~= prev.push((id, st)).map_values(|p: (usize, StreamStats)| stream_row(p.0, p.1)));
        }
        if direction != Direction::Bidirectional {
            match remote.streams.get(&id) {
                Some(r) => {
                    let r = *r;
                    rows.push(row_of(id, r));
                    if r.sender {
                        sender_bytes = sender_bytes + r.bytes_transferred;
                        if r.duration_millis > sender_duration {
                            sender_duration = r.duration_millis;
                        }
                    } else {
                        receiver_bytes = receiver_bytes + r.bytes_transferred;
                        if r.duration_millis > receiver_duration {
                            receiver_duration = r.duration_millis;
                        }
                    }
                    proof {
                        assert(rows@ =~= prev.push((id, st)).push((id, r)).map_values(
                            |p: (usize, StreamStats)| stream_row(p.0, p.1),
                        ));
                    }
                },
                None => {},
            }
        }
        i = i + 1;
    }
    assert(local@.take(n as int) =~= local@);
    let totals = if n > 1 {
        Some(
            (
                StatsRow {
                    id: None,
                    duration_millis: sender_duration,
                    bytes_transferred: sender_bytes,
                    sender: true,
                },
                StatsRow {
                    id: None,
                    duration_millis: receiver_duration,
                    bytes_transferred: receiver_bytes,
                    sender: false,
                },
            ),
        )
    } else {
        None
    };
    Summary { rows, totals }
}

} // verus!
