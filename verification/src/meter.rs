//! Numbers and signs of life: token counts, the share of the context that is used,
//! time budgets, and the bars that move while work is being done.
use crate::style::Color;
use crate::text;
use vstd::arithmetic::div_mod;
use vstd::arithmetic::mul;
use vstd::prelude::*;

verus! {

// ---------------------------------------------------------------------- tokens

/// How many characters of a text are ASCII.
pub open spec fn ascii_count(s: Seq<char>) -> nat
    decreases s.len(),
{
    if s.len() == 0 {
        0
    } else {
        ascii_count(s.drop_last()) + (if (s.last() as u32) < 128 {
            1nat
        } else {
            0nat
        })
    }
}

/// A rough count of the tokens of a text: one for each character that is not ASCII,
/// and one for every four that are, the last of which may be fewer.
pub open spec fn token_estimate(s: Seq<char>) -> nat {
    ((s.len() - ascii_count(s)) + (ascii_count(s) + 3) / 4) as nat
}

proof fn lemma_ascii_count(s: Seq<char>)
    ensures
        ascii_count(s) <= s.len(),
    decreases s.len(),
{
    if s.len() > 0 {
        lemma_ascii_count(s.drop_last());
    }
}

/// A rough count of the tokens of a text.
pub fn est_tokens(s: &str) -> (r: u64)
    ensures
        r == token_estimate(s@),
{
    let v = text::chars_of(s);
    let mut ascii: u64 = 0;
    let mut other: u64 = 0;
    let mut i: usize = 0;
    proof {
        assert(s@.take(0) =~= Seq::<char>::empty());
    }
    while i < v.len()
        invariant
            v@ == s@,
            i <= v.len(),
            ascii + other == i,
            ascii == ascii_count(s@.take(i as int)),
        decreases v.len() - i,
    {
        proof {
            assert(s@.take(i + 1).drop_last() =~= s@.take(i as int));
        }
        if (v[i] as u32) < 128 {
            ascii += 1;
        } else {
            other += 1;
        }
        i += 1;
    }
    proof {
        assert(s@.take(i as int) =~= s@);
    }
    let whole: u64 = ascii / 4;
    if ascii % 4 == 0 {
        other + whole
    } else {
        other + whole + 1
    }
}

/// The whole number nearest to `a / b`; of two, the even one.
pub open spec fn nearest(a: nat, b: nat) -> nat {
    let q = a / b;
    let r = a % b;
    if 2 * r > b || (2 * r == b && q % 2 == 1) {
        q + 1
    } else {
        q
    }
}

/// 2 to the power of 53: what a binary floating-point number of double precision
/// counts up to without a gap.
pub const EXACT: u64 = 0x20_0000_0000_0000;

/// The gap between such numbers at the size of `n`, where it is `unit` or more.
pub open spec fn gap(n: nat, unit: nat) -> nat
    decreases n - unit,
{
    if unit == 0 || n < unit * EXACT {
        unit
    } else {
        gap(n, 2 * unit)
    }
}

/// A whole number as a floating-point number of double precision holds it.
pub open spec fn as_double(n: nat) -> nat {
    nearest(n, gap(n, 1)) * gap(n, 1)
}

/// `(a, p)`, both doubled until the first is `least` or more.
pub open spec fn raised(a: nat, p: nat, least: nat) -> (nat, nat)
    decreases
            (if a < least {
                least - a
            } else {
                0
            }),
{
    if a == 0 || a >= least {
        (a, p)
    } else {
        raised(2 * a, 2 * p, least)
    }
}

/// The quotient of two whole numbers as a floating-point number of double precision
/// holds it, in tenths, rounded to a whole number of them.
pub open spec fn quotient_tenths(n: nat, d: nat) -> nat {
    let (a, p) = raised(as_double(n), 1, (d * (EXACT / 2)) as nat);
    nearest(10 * nearest(a, d), p)
}

/// A number of tenths with one decimal.
pub open spec fn with_decimal(tenths: nat) -> Seq<char> {
    text::decimal(tenths / 10) + "."@ + text::decimal(tenths % 10)
}

/// A number of tokens, shortened: thousands and millions with one decimal.
pub open spec fn token_text(n: nat) -> Seq<char> {
    if n >= 1000000 {
        with_decimal(quotient_tenths(n, 1000000)) + "M"@
    } else if n >= 1000 {
        with_decimal(quotient_tenths(n, 1000)) + "k"@
    } else {
        text::decimal(n)
    }
}

fn round(a: u128, b: u128) -> (r: u128)
    requires
        0 < b,
        b <= u64::MAX,
        a < u128::MAX,
    ensures
        r == nearest(a as nat, b as nat),
        r <= a + 1,
        r * b <= a + b,
        2 * (r * b) + b >= 2 * a,
{
    let q: u128 = a / b;
    let rest: u128 = a % b;
    proof {
        div_mod::lemma_fundamental_div_mod(a as int, b as int);
        div_mod::lemma_mod_bound(a as int, b as int);
        mul::lemma_mul_is_commutative(b as int, q as int);
        div_mod::lemma_div_nonincreasing(a as int, b as int);
        mul::lemma_mul_is_distributive_add_other_way(b as int, q as int, 1);
    }
    if 2 * rest > b || (2 * rest == b && q % 2 == 1) {
        q + 1
    } else {
        q
    }
}

fn to_double(n: u64) -> (r: u128)
    ensures
        r == as_double(n as nat),
        n < EXACT ==> r == n,
        n >= EXACT ==> 2 * r >= n,
        r <= 2 * n,
{
    let mut unit: u64 = 1;
    while n as u128 >= unit as u128 * EXACT as u128
        invariant
            1 <= unit <= 4094,
            unit * EXACT <= 2 * n || unit == 1,
            gap(n as nat, 1) == gap(n as nat, unit as nat),
            n < EXACT ==> unit == 1,
        decreases n - unit,
    {
        unit = 2 * unit;
    }
    let m: u128 = round(n as u128, unit as u128);
    proof {
        assert(gap(n as nat, 1) == unit);
        if unit == 1 {
            assert(nearest(n as nat, 1) == n) by {
                div_mod::lemma_div_basics(n as int);
                assert(n as int % 1 == 0);
            }
            assert(m * unit == m) by (nonlinear_arith)
                requires
                    unit == 1,
            ;
        }
        assert(unit <= n || n == 0 || unit == 1);
    }
    m * unit as u128
}

fn tenths(n: u64, d: u64) -> (r: u64)
    requires
        d == 1000 || d == 1000000,
        n >= d,
    ensures
        r == quotient_tenths(n as nat, d as nat),
{
    let start: u128 = to_double(n);
    let least: u128 = d as u128 * (EXACT / 2) as u128;
    let mut a: u128 = start;
    let mut p: u128 = 1;
    let ghost goal = raised(start as nat, 1, least as nat);
    while a < least
        invariant
            0 < a,
            least == d * (EXACT / 2),
            d == 1000 || d == 1000000,
            goal == raised(a as nat, p as nat, least as nat),
            1 <= p,
            p * d <= a,
            p == 1 || a < 2 * least,
            a <= 2 * u64::MAX || a < 2 * least,
        decreases
                (if a < least {
                    least - a
                } else {
                    0
                }),
    {
        proof {
            assert((2 * p) * d == 2 * (p * d)) by (nonlinear_arith);
        }
        a = 2 * a;
        p = 2 * p;
    }
    let m: u128 = round(a, d as u128);
    proof {
        if d == 1000 {
            assert(p * 1000 <= a);
            assert(m * 1000 <= a + 1000);
        } else {
            assert(p * 1000000 <= a);
            assert(m * 1000000 <= a + 1000000);
        }
    }
    round(10 * m, p) as u64
}

/// A number of tokens, shortened: thousands and millions with one decimal.
pub fn fmt_tokens(n: u64) -> (r: String)
    ensures
        r@ == token_text(n as nat),
{
    if n < 1000 {
        return text::dec64(n);
    }
    let mega = n >= 1000000;
    let t: u64 = if mega {
        tenths(n, 1000000)
    } else {
        tenths(n, 1000)
    };
    let whole = text::dec64(t / 10);
    let part = text::dec64(t % 10);
    text::cat4(
        whole.as_str(),
        ".",
        part.as_str(),
        if mega {
            "M"
        } else {
            "k"
        },
    )
}

// --------------------------------------------------------------------- context

/// The share of the context that is used, in percent: 100 at most.
pub open spec fn percent(used: nat, window: nat) -> nat {
    let p = used * 100 / window;
    if p > 100 {
        100
    } else {
        p
    }
}

/// How many of the ten cells of the badge are full.
pub open spec fn full_cells(pct: nat) -> nat {
    (pct + 5) / 10
}

/// The badge: ten cells and the percentage.
pub open spec fn badge_text(pct: nat) -> Seq<char> {
    "ctx "@ + text::repeated('█', full_cells(pct)) + text::repeated(
        '░',
        (10 - full_cells(pct)) as nat,
    ) + " "@ + text::decimal(pct) + "%"@
}

/// The badge's colour: it warns from 70 percent on, and alerts from 90 on.
pub open spec fn badge_color(pct: nat) -> Color {
    if pct >= 90 {
        Color::Red
    } else if pct >= 70 {
        Color::Yellow
    } else {
        Color::DarkGray
    }
}

/// The share of the context that is used, in percent: 100 at most.
pub fn usage_percent(used: u64, window: usize) -> (r: u64)
    requires
        window > 0,
    ensures
        r == percent(used as nat, window as nat),
        r <= 100,
{
    let p: u128 = used as u128 * 100 / window as u128;
    if p > 100 {
        100
    } else {
        p as u64
    }
}

/// The badge that shows how much of the context is used, where its size is known.
pub fn ctx_usage_badge(used: u64, window: usize) -> (r: Option<(String, Color)>)
    ensures
        match r {
            Some((t, c)) => {
                &&& window > 0
                &&& t@ == badge_text(percent(used as nat, window as nat))
                &&& c == badge_color(percent(used as nat, window as nat))
            },
            None => window == 0,
        },
{
    if window == 0 {
        return None;
    }
    let pct: u64 = usage_percent(used, window);
    let filled: usize = ((pct + 5) / 10) as usize;
    let full = text::repeat_char('█', filled);
    let rest = text::repeat_char('░', 10 - filled);
    let mut t = text::cat4("ctx ", full.as_str(), rest.as_str(), " ");
    t.append(text::dec64(pct).as_str());
    t.append("%");
    let c = if pct >= 90 {
        Color::Red
    } else if pct >= 70 {
        Color::Yellow
    } else {
        Color::DarkGray
    };
    Some((t, c))
}

// --------------------------------------------------------------------- budgets

/// A time budget: in minutes where it is a number of them, else in seconds.
pub open spec fn budget_text(ms: nat) -> Seq<char> {
    let secs = ms / 1000;
    if secs >= 60 && secs % 60 == 0 {
        text::decimal(secs / 60) + "min"@
    } else {
        text::decimal(secs) + "s"@
    }
}

/// A time budget: in minutes where it is a number of them, else in seconds.
pub fn fmt_ms_budget(ms: u64) -> (r: String)
    ensures
        r@ == budget_text(ms as nat),
{
    let secs: u64 = ms / 1000;
    if secs >= 60 && secs % 60 == 0 {
        text::cat2(text::dec64(secs / 60).as_str(), "min")
    } else {
        text::cat2(text::dec64(secs).as_str(), "s")
    }
}

// ------------------------------------------------------------------ moving bars

/// The eight heights of a bar.
pub open spec fn level(i: int) -> char {
    if i <= 0 {
        '▁'
    } else if i == 1 {
        '▂'
    } else if i == 2 {
        '▃'
    } else if i == 3 {
        '▄'
    } else if i == 4 {
        '▅'
    } else if i == 5 {
        '▆'
    } else if i == 6 {
        '▇'
    } else {
        '█'
    }
}

fn level_char(i: u64) -> (c: char)
    ensures
        c == level(i as int),
{
    if i == 0 {
        '▁'
    } else if i == 1 {
        '▂'
    } else if i == 2 {
        '▃'
    } else if i == 3 {
        '▄'
    } else if i == 4 {
        '▅'
    } else if i == 5 {
        '▆'
    } else if i == 6 {
        '▇'
    } else {
        '█'
    }
}

/// How many cells the wave has.
pub open spec fn cells(n: nat) -> nat {
    if n < 2 {
        2
    } else {
        n
    }
}

/// The height of a wave that rises over the first half of `n` cells and falls over
/// the second.
pub open spec fn wave_height(t: int, n: int) -> int {
    let half = n / 2;
    let pos = if t <= half {
        t
    } else {
        n - t
    };
    (pos * 7) / half
}

/// The wave at the given phase.
pub open spec fn wave(phase: nat, n: nat) -> Seq<char> {
    Seq::new(
        cells(n),
        |k: int| level(wave_height((k + phase) % (cells(n) as int), cells(n) as int)),
    )
}

/// A bar that flows: `n` cells, or two where that is less.
pub fn wave_row(phase: usize, n: usize) -> (r: String)
    ensures
        r@ == wave(phase as nat, n as nat),
{
    let n: usize = if n < 2 {
        2
    } else {
        n
    };
    let ghost all = wave(phase as nat, n as nat);
    let half: usize = n / 2;
    let shift: usize = phase % n;
    let mut out = String::new();
    let mut k: usize = 0;
    proof {
        assert(all.take(0) =~= Seq::<char>::empty());
    }
    while k < n
        invariant
            n >= 2,
            half == n / 2,
            shift == phase % n,
            shift < n,
            all == wave(phase as nat, n as nat),
            k <= n,
            out@ == all.take(k as int),
        decreases n - k,
    {
        let t: usize = if k < n - shift {
            k + shift
        } else {
            k - (n - shift)
        };
        proof {
            div_mod::lemma_fundamental_div_mod(phase as int, n as int);
            let c = phase as int / n as int;
            if k < n - shift {
                mul::lemma_mul_is_commutative(n as int, c);
                div_mod::lemma_fundamental_div_mod_converse(k + phase, n as int, c, t as int);
            } else {
                mul::lemma_mul_is_distributive_add_other_way(n as int, c, 1);
                mul::lemma_mul_is_commutative(n as int, c);
                div_mod::lemma_fundamental_div_mod_converse(k + phase, n as int, c + 1, t as int);
            }
        }
        let pos: usize = if t <= half {
            t
        } else {
            n - t
        };
        let h: u128 = (pos as u128 * 7) / half as u128;
        proof {
            assert(pos <= half + 1);
            assert(h == wave_height(t as int, n as int));
            assert((pos * 7) / (half as int) <= 14) by {
                div_mod::lemma_div_is_ordered(pos * 7, half * 14, half as int);
                div_mod::lemma_div_multiples_vanish(14, half as int);
            }
        }
        out.push(level_char(h as u64));
        proof {
            assert(all.take(k + 1) =~= all.take(k as int).push(all[k as int]));
        }
        k += 1;
    }
    proof {
        assert(all.take(n as int) =~= all);
    }
    out
}

/// The heights of a cell that pulses.
pub open spec fn pulse(i: int) -> char {
    let m = i % 8;
    if m == 0 {
        '▁'
    } else if m == 1 || m == 7 {
        '▃'
    } else if m == 2 || m == 6 {
        '▅'
    } else if m == 3 || m == 5 {
        '▇'
    } else {
        '█'
    }
}

/// A cell that pulses.
pub fn pulse_char(slow_frame: usize) -> (c: char)
    ensures
        c == pulse(slow_frame as int),
{
    let m: usize = slow_frame % 8;
    if m == 0 {
        '▁'
    } else if m == 1 || m == 7 {
        '▃'
    } else if m == 2 || m == 6 {
        '▅'
    } else if m == 3 || m == 5 {
        '▇'
    } else {
        '█'
    }
}

/// The widths of a cell that shrinks and springs back.
pub open spec fn shrinking(i: int) -> char {
    let m = i % 14;
    let d = if m <= 7 {
        m
    } else {
        14 - m
    };
    if d == 0 {
        '█'
    } else if d == 1 {
        '▉'
    } else if d == 2 {
        '▊'
    } else if d == 3 {
        '▋'
    } else if d == 4 {
        '▌'
    } else if d == 5 {
        '▍'
    } else if d == 6 {
        '▎'
    } else {
        '▏'
    }
}

/// A cell that shrinks and springs back.
pub fn shrink_char(frame: usize) -> (c: char)
    ensures
        c == shrinking(frame as int),
{
    let m: usize = frame % 14;
    let d: usize = if m <= 7 {
        m
    } else {
        14 - m
    };
    if d == 0 {
        '█'
    } else if d == 1 {
        '▉'
    } else if d == 2 {
        '▊'
    } else if d == 3 {
        '▋'
    } else if d == 4 {
        '▌'
    } else if d == 5 {
        '▍'
    } else if d == 6 {
        '▎'
    } else {
        '▏'
    }
}

// ------------------------------------------------------------------------ laws

/// With each phase the wave moves one cell to the left, and what leaves it there
/// comes back at the right.
pub proof fn law_wave_flows_left(phase: nat, n: nat, k: int)
    requires
        0 <= k < cells(n),
    ensures
        wave(phase + 1, n)[k] == wave(phase, n)[(k + 1) % (cells(n) as int)],
{
    let m = cells(n) as int;
    let j = (k + 1) % m;
    div_mod::lemma_mod_bound(k + 1, m);
    div_mod::lemma_add_mod_noop(k + 1, phase as int, m);
    div_mod::lemma_add_mod_noop(j, phase as int, m);
    div_mod::lemma_mod_twice(k + 1, m);
    assert((j + phase) % m == (k + 1 + phase) % m);
}

/// The wave at its first phase is lowest at its first cell and highest in its middle;
/// up to there it rises in proportion, and then it falls as it rose.
pub proof fn law_wave_rises_and_falls(n: nat, k: int)
    requires
        0 <= k < cells(n),
    ensures
        ({
            let w = wave(0, n);
            let m = cells(n) as int;
            let h = (w[k] as u32) - ('▁' as u32);
            &&& n >= 2 ==> w.len() == n
            &&& w.len() == m >= 2
            &&& w[0] == '▁'
            &&& w[m / 2] == '█'
            &&& 0 < k ==> w[m - k] == w[k]
            &&& k <= m / 2 ==> h * (m / 2) <= 7 * k < (h + 1) * (m / 2)
        }),
{
    let m = cells(n) as int;
    let half = m / 2;
    let w = wave(0, n);
    div_mod::lemma_small_mod(k as nat, m as nat);
    div_mod::lemma_small_mod(0, m as nat);
    div_mod::lemma_small_mod(half as nat, m as nat);
    div_mod::lemma_div_multiples_vanish(7, half);
    mul::lemma_mul_is_commutative(7, half);
    assert(wave_height(0, m) == 0) by {
        div_mod::lemma_div_basics(half);
    }
    assert(wave_height(half, m) == 7);
    if 0 < k {
        div_mod::lemma_small_mod((m - k) as nat, m as nat);
        assert(wave_height(m - k, m) == wave_height(k, m));
    }
    if k <= half {
        let h = wave_height(k, m);
        div_mod::lemma_fundamental_div_mod(k * 7, half);
        div_mod::lemma_mod_bound(k * 7, half);
        assert(half * h <= 7 * k < half * h + half);
        assert(0 <= h <= 7) by (nonlinear_arith)
            requires
                half * h <= 7 * k,
                7 * k < half * h + half,
                0 <= k <= half,
                half > 0,
        ;
        mul::lemma_mul_is_commutative(half, h);
        mul::lemma_mul_is_distributive_add_other_way(half, h, 1);
        assert((w[k] as u32) - ('▁' as u32) == h);
    }
}

/// The cells repeat: the one that pulses every 8 frames, the one that shrinks every
/// 14.
pub proof fn law_cells_repeat(i: int)
    ensures
        pulse(i + 8) == pulse(i),
        shrinking(i + 14) == shrinking(i),
{
}

/// The badge has ten cells, whatever is used.
pub proof fn law_badge_has_ten_cells(pct: nat)
    requires
        pct <= 100,
    ensures
        full_cells(pct) <= 10,
        text::repeated('█', full_cells(pct)).len() + text::repeated(
            '░',
            (10 - full_cells(pct)) as nat,
        ).len() == 10,
{
}

/// A text is never counted for more tokens than it has characters, nor for fewer
/// than a quarter of them.
pub proof fn law_estimate_is_bounded(s: Seq<char>)
    ensures
        token_estimate(s) <= s.len() <= 4 * token_estimate(s),
{
    lemma_ascii_count(s);
}

} // verus!
