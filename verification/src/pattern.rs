//! Insertion of captured substrings into a target template.
//!
//! A template is scanned left to right: `#` followed by decimal digits names
//! the capture at that 1-based position; every other character is literal.
//! A placeholder whose position is `0` or exceeds the number of captures is
//! an error, reported for the leftmost such placeholder.

use vstd::prelude::*;

use crate::chars::from_chars;
use crate::chars::sub_chars;
use crate::chars::to_chars;
use crate::errors::MassMoveError;

verus! {

/// Whether `c` is a decimal digit.
pub open spec fn is_digit(c: char) -> bool {
    48 <= (c as u32) && (c as u32) <= 57
}

/// The value of a decimal digit.
pub open spec fn digit_val(c: char) -> nat {
    ((c as u32) - 48) as nat
}

/// The length of the longest all-digit prefix of `t`.
pub open spec fn digits_prefix_len(t: Seq<char>) -> nat
    decreases t.len(),
{
    if t.len() > 0 && is_digit(t[0]) {
        1 + digits_prefix_len(t.skip(1))
    } else {
        0
    }
}

/// The value of an all-digit sequence read as a decimal number.
pub open spec fn digits_value(t: Seq<char>) -> nat
    decreases t.len(),
{
    if t.len() == 0 {
        0
    } else {
        digits_value(t.take(t.len() - 1)) * 10 + digit_val(t[t.len() - 1])
    }
}

/// The views of a list of captured strings.
pub open spec fn caps_view(ms: Seq<String>) -> Seq<Seq<char>> {
    ms.map_values(|m: String| m@)
}

/// A digit prefix is never longer than the sequence itself.
pub proof fn lemma_digits_prefix_len_bound(t: Seq<char>)
    ensures
        digits_prefix_len(t) <= t.len(),
    decreases t.len(),
{
    if t.len() > 0 && is_digit(t[0]) {
        lemma_digits_prefix_len_bound(t.skip(1));
    }
}

/// The result of substituting the captures `caps` into template `t`: the
/// resolved text, or the position of the leftmost invalid placeholder.
pub open spec fn interp(caps: Seq<Seq<char>>, t: Seq<char>) -> Result<Seq<char>, nat>
    decreases t.len(),
    via interp_decreases
{
    if t.len() == 0 {
        Ok(Seq::empty())
    } else if t[0] == '#' {
        let d = digits_prefix_len(t.skip(1));
        let idx = digits_value(t.skip(1).take(d as int));
        if idx == 0 || idx > caps.len() {
            Err(idx)
        } else {
            match interp(caps, t.skip(1 + d as int)) {
                Ok(rest) => Ok(caps[idx - 1] + rest),
                Err(e) => Err(e),
            }
        }
    } else {
        match interp(caps, t.skip(1)) {
            Ok(rest) => Ok(seq![t[0]] + rest),
            Err(e) => Err(e),
        }
    }
}

#[via_fn]
proof fn interp_decreases(caps: Seq<Seq<char>>, t: Seq<char>) {
    if t.len() > 0 && t[0] == '#' {
        lemma_digits_prefix_len_bound(t.skip(1));
    }
}

/// The positions the placeholders of template `t` reference, in template
/// order.
pub open spec fn placeholder_positions(t: Seq<char>) -> Seq<nat>
    decreases t.len(),
    via placeholder_positions_decreases
{
    if t.len() == 0 {
        Seq::empty()
    } else if t[0] == '#' {
        let d = digits_prefix_len(t.skip(1));
        let idx = digits_value(t.skip(1).take(d as int));
        seq![idx] + placeholder_positions(t.skip(1 + d as int))
    } else {
        placeholder_positions(t.skip(1))
    }
}

#[via_fn]
proof fn placeholder_positions_decreases(t: Seq<char>) {
    if t.len() > 0 && t[0] == '#' {
        lemma_digits_prefix_len_bound(t.skip(1));
    }
}

/// Substitution is total on well-formed templates: when every placeholder
/// position of the template lies between 1 and the number of captures,
/// resolving the template succeeds.
pub proof fn lemma_template_in_range_succeeds(caps: Seq<Seq<char>>, t: Seq<char>)
    requires
        forall|k: int|
            0 <= k < placeholder_positions(t).len() ==> 1 <= #[trigger] placeholder_positions(
                t,
            )[k] <= caps.len(),
    ensures
        interp(caps, t) is Ok,
    decreases t.len(),
{
    if t.len() == 0 {
    } else if t[0] == '#' {
        let d = digits_prefix_len(t.skip(1));
        let idx = digits_value(t.skip(1).take(d as int));
        lemma_digits_prefix_len_bound(t.skip(1));
        let tail = t.skip(1 + d as int);
        assert(placeholder_positions(t)[0] == idx);
        assert(1 <= idx <= caps.len());
        assert forall|k: int|
            0 <= k < placeholder_positions(tail).len() implies 1
            <= #[trigger] placeholder_positions(tail)[k] <= caps.len() by {
            assert(placeholder_positions(t)[k + 1] == placeholder_positions(tail)[k]);
        }
        lemma_template_in_range_succeeds(caps, tail);
    } else {
        let tail = t.skip(1);
        assert forall|k: int|
            0 <= k < placeholder_positions(tail).len() implies 1
            <= #[trigger] placeholder_positions(tail)[k] <= caps.len() by {
            assert(placeholder_positions(t)[k] == placeholder_positions(tail)[k]);
        }
        lemma_template_in_range_succeeds(caps, tail);
    }
}

/// The character for a decimal digit value.
pub open spec fn digit_char(d: nat) -> char {
    if d == 0 {
        '0'
    } else if d == 1 {
        '1'
    } else if d == 2 {
        '2'
    } else if d == 3 {
        '3'
    } else if d == 4 {
        '4'
    } else if d == 5 {
        '5'
    } else if d == 6 {
        '6'
    } else if d == 7 {
        '7'
    } else if d == 8 {
        '8'
    } else {
        '9'
    }
}

/// The decimal rendering of `n`, most significant digit first.
pub open spec fn dec_str(n: nat) -> Seq<char>
    decreases n,
{
    if n < 10 {
        seq![digit_char(n)]
    } else {
        dec_str(n / 10).push(digit_char(n % 10))
    }
}

/// The diagnostic text for an invalid placeholder position.
pub open spec fn position_message(i: nat) -> Seq<char> {
    "position #"@ + dec_str(i) + " not exist in source path"@
}

/// Appends the decimal rendering of `n` to `out`.
fn push_dec(n: usize, out: &mut Vec<char>)
    ensures
        final(out)@ == old(out)@ + dec_str(n as nat),
    decreases n,
{
    if n < 10 {
        let c: char = match n {
            0 => '0',
            1 => '1',
            2 => '2',
            3 => '3',
            4 => '4',
            5 => '5',
            6 => '6',
            7 => '7',
            8 => '8',
            _ => '9',
        };
        out.push(c);
        proof {
            assert(c == digit_char(n as nat));
            assert(out@ =~= old(out)@ + dec_str(n as nat));
        }
    } else {
        push_dec(n / 10, out);
        let d = n % 10;
        let c: char = match d {
            0 => '0',
            1 => '1',
            2 => '2',
            3 => '3',
            4 => '4',
            5 => '5',
            6 => '6',
            7 => '7',
            8 => '8',
            _ => '9',
        };
        out.push(c);
        proof {
            assert(c == digit_char((n % 10) as nat));
            assert(out@ =~= old(out)@ + dec_str(n as nat));
        }
    }
}

/// The error reported for an invalid placeholder position.
fn position_error(i: usize) -> (e: MassMoveError)
    ensures
        e matches MassMoveError::InvalidTargetPath(m) && m@ == position_message(i as nat),
{
    let mut msg = to_chars("position #");
    push_dec(i, &mut msg);
    let mut tail = to_chars(" not exist in source path");
    msg.append(&mut tail);
    proof {
        assert(msg@ =~= position_message(i as nat));
    }
    MassMoveError::InvalidTargetPath(from_chars(&msg))
}

/// A template without placeholders resolves the same way under any two
/// capture lists: to its own text.
pub proof fn lemma_no_placeholders_same(c1: Seq<Seq<char>>, c2: Seq<Seq<char>>, t: Seq<char>)
    requires
        placeholder_positions(t).len() == 0,
    ensures
        interp(c1, t) is Ok,
        interp(c1, t) == interp(c2, t),
    decreases t.len(),
{
    if t.len() == 0 {
    } else {
        assert(t[0] != '#');
        lemma_no_placeholders_same(c1, c2, t.skip(1));
    }
}

/// Substitution into a template with a single placeholder is injective in
/// the capture it references: two capture lists that give that position a
/// valid value and produce the same output agree on that value. (With two
/// adjacent placeholders this fails: distinct capture pairs can meet at
/// the same concatenation.)
pub proof fn lemma_single_placeholder_injective(
    c1: Seq<Seq<char>>,
    c2: Seq<Seq<char>>,
    t: Seq<char>,
)
    requires
        placeholder_positions(t).len() == 1,
        1 <= placeholder_positions(t)[0] <= c1.len(),
        placeholder_positions(t)[0] <= c2.len(),
        interp(c1, t) == interp(c2, t),
    ensures
        c1[placeholder_positions(t)[0] - 1] == c2[placeholder_positions(t)[0] - 1],
    decreases t.len(),
{
    let idx = placeholder_positions(t)[0];
    if t[0] == '#' {
        let d = digits_prefix_len(t.skip(1));
        let tail = t.skip(1 + d as int);
        assert(placeholder_positions(t) == seq![digits_value(t.skip(1).take(d as int))]
            + placeholder_positions(tail));
        assert(placeholder_positions(tail).len() == 0);
        assert(idx == digits_value(t.skip(1).take(d as int)));
        lemma_no_placeholders_same(c1, c2, tail);
        let r = interp(c1, tail)->Ok_0;
        let o1 = c1[idx - 1] + r;
        let o2 = c2[idx - 1] + r;
        assert(interp(c1, t) == Ok::<Seq<char>, nat>(o1));
        assert(interp(c2, t) == Ok::<Seq<char>, nat>(o2));
        assert(o1 == o2);
        assert(o1.len() == o2.len());
        assert(c1[idx - 1].len() == c2[idx - 1].len());
        assert forall|k: int| 0 <= k < c1[idx - 1].len() implies #[trigger] c1[idx - 1][k]
            == c2[idx - 1][k] by {
            assert(o1[k] == c1[idx - 1][k]);
            assert(o2[k] == c2[idx - 1][k]);
        }
        assert(c1[idx - 1] =~= c2[idx - 1]);
    } else {
        assert(placeholder_positions(t.skip(1)) == placeholder_positions(t));
        let r1 = interp(c1, t.skip(1));
        let r2 = interp(c2, t.skip(1));
        lemma_template_in_range_succeeds(c1, t.skip(1));
        lemma_template_in_range_succeeds(c2, t.skip(1));
        assert(interp(c1, t) == Ok::<Seq<char>, nat>(seq![t[0]] + r1->Ok_0));
        assert(interp(c2, t) == Ok::<Seq<char>, nat>(seq![t[0]] + r2->Ok_0));
        assert(seq![t[0]] + r1->Ok_0 == seq![t[0]] + r2->Ok_0);
        assert(r1->Ok_0 =~= (seq![t[0]] + r1->Ok_0).skip(1));
        assert(r2->Ok_0 =~= (seq![t[0]] + r2->Ok_0).skip(1));
        assert(r1 == r2);
        lemma_single_placeholder_injective(c1, c2, t.skip(1));
    }
}

/// A sequence whose first `k` characters are digits and whose character at
/// `k`, if any, is not has a digit prefix of length exactly `k`.
proof fn lemma_digits_prefix_len_exact(s: Seq<char>, k: int)
    requires
        0 <= k <= s.len(),
        forall|i: int| 0 <= i < k ==> is_digit(s[i]),
        k == s.len() || !is_digit(s[k]),
    ensures
        digits_prefix_len(s) == k,
    decreases k,
{
    if k == 0 {
    } else {
        assert(is_digit(s[0]));
        assert forall|i: int| 0 <= i < k - 1 implies is_digit(s.skip(1)[i]) by {
            assert(s.skip(1)[i] == s[i + 1]);
        }
        if k - 1 < s.skip(1).len() {
            assert(s.skip(1)[k - 1] == s[k]);
        }
        lemma_digits_prefix_len_exact(s.skip(1), k - 1);
    }
}

/// Reading one more digit multiplies the value by ten and adds the digit.
proof fn lemma_digits_value_push(u: Seq<char>, c: char)
    ensures
        digits_value(u.push(c)) == digits_value(u) * 10 + digit_val(c),
{
    let w = u.push(c);
    assert(w.take(w.len() - 1) =~= u);
    assert(w[w.len() - 1] == c);
}

/// A digit character is recovered from its value.
proof fn lemma_digit_char_val(c: char)
    requires
        is_digit(c),
    ensures
        digit_char(digit_val(c)) == c,
{
    if c as u32 == 48 {
        assert(c == '0');
    } else if c as u32 == 49 {
        assert(c == '1');
    } else if c as u32 == 50 {
        assert(c == '2');
    } else if c as u32 == 51 {
        assert(c == '3');
    } else if c as u32 == 52 {
        assert(c == '4');
    } else if c as u32 == 53 {
        assert(c == '5');
    } else if c as u32 == 54 {
        assert(c == '6');
    } else if c as u32 == 55 {
        assert(c == '7');
    } else if c as u32 == 56 {
        assert(c == '8');
    } else {
        assert(c == '9');
    }
}

/// A leading zero does not change the value of a digit run.
proof fn lemma_digits_value_drop_zero(ds: Seq<char>)
    requires
        ds.len() >= 1,
        ds[0] == '0',
    ensures
        digits_value(ds) == digits_value(ds.skip(1)),
    decreases ds.len(),
{
    if ds.len() == 1 {
        assert(ds.skip(1) =~= Seq::<char>::empty());
        assert(ds.take(0) =~= Seq::<char>::empty());
    } else {
        let u = ds.take(ds.len() - 1);
        lemma_digits_value_drop_zero(u);
        assert(ds.skip(1).take(ds.len() - 2) =~= u.skip(1));
        assert(ds.skip(1)[ds.len() - 2] == ds[ds.len() - 1]);
    }
}

/// Any run of leading zeros does not change the value of a digit run.
proof fn lemma_digits_value_drop_zeros(ds: Seq<char>, z: int)
    requires
        0 <= z <= ds.len(),
        forall|i: int| 0 <= i < z ==> ds[i] == '0',
    ensures
        digits_value(ds) == digits_value(ds.skip(z)),
    decreases z,
{
    if z > 0 {
        lemma_digits_value_drop_zero(ds);
        assert forall|i: int| 0 <= i < z - 1 implies ds.skip(1)[i] == '0' by {
            assert(ds.skip(1)[i] == ds[i + 1]);
        }
        lemma_digits_value_drop_zeros(ds.skip(1), z - 1);
        assert(ds.skip(1).skip(z - 1) =~= ds.skip(z));
    } else {
        assert(ds.skip(0) =~= ds);
    }
}

/// A digit run starting with a nonzero digit has a positive value.
proof fn lemma_digits_value_pos(ds: Seq<char>)
    requires
        ds.len() >= 1,
        forall|i: int| 0 <= i < ds.len() ==> is_digit(#[trigger] ds[i]),
        ds[0] != '0',
    ensures
        digits_value(ds) >= 1,
    decreases ds.len(),
{
    if ds.len() == 1 {
        assert(ds.take(0) =~= Seq::<char>::empty());
        lemma_digit_char_val(ds[0]);
        if digit_val(ds[0]) == 0 {
            assert(ds[0] == digit_char(0));
        }
        assert(digit_val(ds[0]) >= 1);
    } else {
        let u = ds.take(ds.len() - 1);
        assert forall|i: int| 0 <= i < u.len() implies is_digit(#[trigger] u[i]) by {
            assert(u[i] == ds[i]);
        }
        lemma_digits_value_pos(u);
    }
}

/// The decimal rendering of a digit run's value is the run itself, when
/// the run does not start with a zero.
proof fn lemma_dec_str_digits(ds: Seq<char>)
    requires
        ds.len() >= 1,
        forall|i: int| 0 <= i < ds.len() ==> is_digit(#[trigger] ds[i]),
        ds[0] != '0',
    ensures
        dec_str(digits_value(ds)) == ds,
    decreases ds.len(),
{
    if ds.len() == 1 {
        assert(ds.take(0) =~= Seq::<char>::empty());
        assert(digits_value(Seq::<char>::empty()) == 0);
        assert(is_digit(ds[0]));
        assert(digits_value(ds) == digit_val(ds[0]));
        assert(digit_val(ds[0]) < 10);
        assert(dec_str(digit_val(ds[0])) == seq![digit_char(digit_val(ds[0]))]);
        lemma_digit_char_val(ds[0]);
        assert(dec_str(digits_value(ds)) =~= ds);
    } else {
        let u = ds.take(ds.len() - 1);
        let d = ds[ds.len() - 1];
        assert forall|i: int| 0 <= i < u.len() implies is_digit(#[trigger] u[i]) by {
            assert(u[i] == ds[i]);
        }
        lemma_digits_value_pos(u);
        lemma_dec_str_digits(u);
        let vu = digits_value(u);
        let dv = digit_val(d);
        assert(digits_value(ds) == vu * 10 + dv);
        assert(dv < 10);
        assert(vu * 10 + dv >= 10) by (nonlinear_arith)
            requires
                vu >= 1,
                dv >= 0,
        ;
        vstd::arithmetic::div_mod::lemma_fundamental_div_mod_converse(
            (vu * 10 + dv) as int,
            10,
            vu as int,
            dv as int,
        );
        lemma_digit_char_val(d);
        assert(dec_str(digits_value(ds)) == dec_str(vu).push(digit_char(dv)));
        assert(u.push(d) =~= ds);
    }
}

/// Substitutes the captures into the tail of the template from `ti` on.
fn interp_from(matches: &[String], t: &Vec<char>, ti: usize) -> (r: Result<Vec<char>, MassMoveError>)
    requires
        ti <= t@.len(),
    ensures
        ({
            let s = interp(caps_view(matches@), t@.skip(ti as int));
            match r {
                Ok(v) => s matches Ok(o) && v@ == o,
                Err(e) => s matches Err(i) && (e matches MassMoveError::InvalidTargetPath(m) && m@
                    == position_message(i)),
            }
        }),
    decreases t@.len() - ti,
{
    let n = t.len();
    let ghost ts = t@.skip(ti as int);
    if ti == n {
        let r: Vec<char> = Vec::new();
        proof {
            assert(r@ =~= interp(caps_view(matches@), ts)->Ok_0);
        }
        return Ok(r);
    }
    proof {
        assert(ts[0] == t@[ti as int]);
        assert(ts.skip(1) =~= t@.skip(ti + 1));
    }
    let c = t[ti];
    if c == '#' {
        let mut j = ti + 1;
        let mut val: usize = 0;
        let mut big = false;
        loop
            invariant
                ti + 1 <= j <= n,
                n == t@.len(),
                forall|i: int| ti + 1 <= i < j ==> is_digit(t@[i]),
                !big ==> val as nat == digits_value(t@.subrange(ti + 1, j as int)),
                big ==> digits_value(t@.subrange(ti + 1, j as int)) > usize::MAX,
            ensures
                ti + 1 <= j <= n,
                j == n || !is_digit(t@[j as int]),
                forall|i: int| ti + 1 <= i < j ==> is_digit(t@[i]),
                !big ==> val as nat == digits_value(t@.subrange(ti + 1, j as int)),
                big ==> digits_value(t@.subrange(ti + 1, j as int)) > usize::MAX,
            decreases n - j,
        {
            if j >= n {
                break ;
            }
            let d = t[j];
            let du = d as u32;
            if du < 48 || du > 57 {
                proof {
                    assert(('0' as u32) == 48 && ('9' as u32) == 57);
                    assert(!is_digit(t@[j as int]));
                }
                break ;
            }
            let dv = (du - 48) as usize;
            proof {
                assert(('0' as u32) == 48 && ('9' as u32) == 57);
                assert(is_digit(d));
                assert(dv as nat == digit_val(d));
                assert(t@.subrange(ti + 1, j + 1) =~= t@.subrange(ti + 1, j as int).push(
                    t@[j as int],
                ));
                lemma_digits_value_push(t@.subrange(ti + 1, j as int), t@[j as int]);
            }
            if !big {
                match val.checked_mul(10) {
                    Some(x) => {
                        match x.checked_add(dv) {
                            Some(y) => {
                                val = y;
                            },
                            None => {
                                big = true;
                            },
                        }
                    },
                    None => {
                        big = true;
                    },
                }
            }
            j = j + 1;
        }
        let ghost d = digits_prefix_len(ts.skip(1));
        let ghost idx = digits_value(ts.skip(1).take(d as int));
        proof {
            assert forall|i: int| 0 <= i < (j - (ti + 1)) implies #[trigger] is_digit(
                t@.skip(ti + 1)[i],
            ) by {
                assert(t@.skip(ti + 1)[i] == t@[ti + 1 + i]);
            }
            if j < n {
                assert(t@.skip(ti + 1)[j - (ti + 1)] == t@[j as int]);
            }
            lemma_digits_prefix_len_exact(t@.skip(ti + 1), j - (ti + 1));
            assert(d == j - (ti + 1));
            assert(ts.skip(1).take(d as int) =~= t@.subrange(ti + 1, j as int));
        }
        let nm = matches.len();
        let bad = big || val == 0 || val > nm;
        if bad {
            proof {
                assert(caps_view(matches@).len() == nm);
                if big {
                    assert(idx > usize::MAX >= caps_view(matches@).len());
                }
                assert(interp(caps_view(matches@), ts) matches Err(i) && i == idx);
            }
            let ghost run = t@.subrange(ti + 1, j as int);
            let mut z = ti + 1;
            while z < j && t[z] == '0'
                invariant
                    ti + 1 <= z <= j <= n,
                    n == t@.len(),
                    forall|q: int| ti + 1 <= q < z ==> t@[q] == '0',
                decreases j - z,
            {
                z = z + 1;
            }
            let mut msg = to_chars("position #");
            proof {
                assert forall|q: int| 0 <= q < (z - (ti + 1)) implies run[q] == '0' by {
                    assert(run[q] == t@[ti + 1 + q]);
                }
                lemma_digits_value_drop_zeros(run, z - (ti + 1));
                if z == j {
                    assert(run.skip(z - (ti + 1)) =~= Seq::<char>::empty());
                    assert(idx == 0);
                    assert(dec_str(0) == seq![digit_char(0)]);
                } else {
                    let suffix = run.skip(z - (ti + 1));
                    assert(suffix =~= t@.subrange(z as int, j as int));
                    assert(suffix[0] == t@[z as int]);
                    assert forall|q: int| 0 <= q < suffix.len() implies is_digit(
                        #[trigger] suffix[q],
                    ) by {
                        assert(suffix[q] == t@[z + q]);
                    }
                    lemma_dec_str_digits(suffix);
                    assert(dec_str(idx) == suffix);
                }
            }
            if z == j {
                msg.push('0');
            } else {
                let mut digits = sub_chars(t, z, j);
                msg.append(&mut digits);
            }
            let mut tail = to_chars(" not exist in source path");
            msg.append(&mut tail);
            proof {
                assert(msg@ =~= position_message(idx));
            }
            return Err(MassMoveError::InvalidTargetPath(from_chars(&msg)));
        }
        proof {
            assert(ts.skip(1 + d as int) =~= t@.skip(j as int));
        }
        match interp_from(matches, t, j) {
            Ok(rest) => {
                let mut out = to_chars(matches[val - 1].as_str());
                let mut restv = rest;
                out.append(&mut restv);
                proof {
                    assert(caps_view(matches@)[val - 1] == matches@[val - 1]@);
                    assert(out@ =~= interp(caps_view(matches@), ts)->Ok_0);
                }
                Ok(out)
            },
            Err(e) => Err(e),
        }
    } else {
        match interp_from(matches, t, ti + 1) {
            Ok(rest) => {
                let mut out = rest;
                out.insert(0, c);
                proof {
                    assert(out@ =~= interp(caps_view(matches@), ts)->Ok_0);
                }
                Ok(out)
            },
            Err(e) => Err(e),
        }
    }
}

/// Substitutes the captures into the whole target template: every `#`
/// placeholder is replaced by the capture at its decimal position, every
/// other character kept; the leftmost placeholder whose position is `0` or
/// exceeds the number of captures is reported as an invalid target path.
pub fn insert_matches_in_target(matches: &[String], pattern: &str) -> (r: Result<
    String,
    MassMoveError,
>)
    ensures
        ({
            let s = interp(caps_view(matches@), pattern@);
            match r {
                Ok(v) => s matches Ok(o) && v@ == o,
                Err(e) => s matches Err(i) && (e matches MassMoveError::InvalidTargetPath(m) && m@
                    == position_message(i)),
            }
        }),
{
    let t = to_chars(pattern);
    proof {
        assert(t@.skip(0) =~= pattern@);
    }
    match interp_from(matches, &t, 0) {
        Ok(v) => Ok(from_chars(&v)),
        Err(e) => Err(e),
    }
}

/// Appends the capture at 1-based position `i` to `filename`; an `i` of `0`
/// or beyond the capture list is an invalid position.
pub fn insert_match_in_filename(matches: &[String], filename: String, i: usize) -> (r: Result<
    String,
    MassMoveError,
>)
    ensures
        i != 0 && i <= matches@.len() ==> (r matches Ok(s) && s@ == filename@ + matches@[i
            - 1]@),
        i == 0 || i > matches@.len() ==> (r matches Err(MassMoveError::InvalidTargetPath(m)) && m@
            == position_message(i as nat)),
{
    let mut filename = filename;
    if i != 0 && i <= matches.len() {
        filename.append(matches[i - 1].as_str());
        Ok(filename)
    } else {
        Err(position_error(i))
    }
}

} // verus!
