//! Small shared helpers: the console-logger record shape, decimal
//! rendering, and the builders for the parameter-placeholder lists that the
//! composed store queries embed.
//!
//! Tag and file values are never interpolated into query text: the builders
//! emit one `?` placeholder per value, and the values themselves are bound
//! as parameters when the query runs.

use vstd::prelude::*;

verus! {

/// Marker for the plain console logger. The crate only fixes the record
/// line's shape (see [`format_record`]); the sink that prints it lives with
/// the binary.
pub struct ConsoleLogger;

impl ConsoleLogger {
    /// The console logger accepts records of every level and target.
    pub fn enabled(&self) -> (r: bool)
        ensures
            r,
    {
        true
    }
}

/// One logged line: `target: level: message`.
pub open spec fn record_line(target: Seq<char>, level: Seq<char>, message: Seq<char>) -> Seq<char> {
    target + ": "@ + level + ": "@ + message
}

/// Renders one log record as the single line the console logger prints.
pub fn format_record(target: &str, level: &str, message: &str) -> (r: String)
    ensures
        r@ == record_line(target@, level@, message@),
{
    let mut r = String::from_str(target);
    r.append(": ");
    r.append(level);
    r.append(": ");
    r.append(message);
    proof {
        assert(r@ =~= record_line(target@, level@, message@));
    }
    r
}

/// The decimal digit character of `d`, for `d < 10`.
pub open spec fn dec_digit(d: nat) -> char {
    if d == 0 {
        '0'
    } else if d == 1 {
        '1'
    } else if d == 2 {
        '2'
    } else if d == 3 {
        '3'
    } else if d == 4 {
        '4'
    } else if d == 5 {
        '5'
    } else if d == 6 {
        '6'
    } else if d == 7 {
        '7'
    } else if d == 8 {
        '8'
    } else {
        '9'
    }
}

/// The decimal rendering of `n`, most significant digit first, without
/// leading zeros (except for `n == 0` itself).
pub open spec fn dec_rep(n: nat) -> Seq<char>
    decreases n,
{
    if n < 10 {
        seq![dec_digit(n)]
    } else {
        dec_rep(n / 10) + seq![dec_digit(n % 10)]
    }
}

/// A decimal rendering is never empty.
pub proof fn lemma_dec_rep_len(n: nat)
    ensures
        dec_rep(n).len() >= 1,
    decreases n,
{
    if n >= 10 {
        lemma_dec_rep_len(n / 10);
    }
}

/// A decimal rendering holds digit characters only — never a `~`.
pub proof fn lemma_dec_rep_no_tilde(n: nat)
    ensures
        forall|i: int| 0 <= i < dec_rep(n).len() ==> dec_rep(n)[i] != '~',
    decreases n,
{
    if n < 10 {
    } else {
        lemma_dec_rep_no_tilde(n / 10);
        assert forall|i: int| 0 <= i < dec_rep(n).len() implies dec_rep(n)[i] != '~' by {
            if i < dec_rep(n / 10).len() {
                assert(dec_rep(n)[i] == dec_rep(n / 10)[i]);
            } else {
                assert(dec_rep(n)[i] == dec_digit(n % 10));
            }
        }
    }
}

/// Distinct digits render as distinct characters.
proof fn lemma_dec_digit_injective(a: nat, b: nat)
    requires
        a < 10,
        b < 10,
        dec_digit(a) == dec_digit(b),
    ensures
        a == b,
{
}

/// Two numbers with the same decimal rendering are the same number.
pub proof fn lemma_dec_rep_injective(m: nat, n: nat)
    requires
        dec_rep(m) == dec_rep(n),
    ensures
        m == n,
    decreases m,
{
    if m < 10 && n < 10 {
        assert(dec_rep(m) =~= seq![dec_digit(m)]);
        assert(dec_rep(n) =~= seq![dec_digit(n)]);
        assert(dec_rep(m)[0] == dec_digit(m));
        assert(dec_rep(n)[0] == dec_digit(n));
        lemma_dec_digit_injective(m, n);
    } else if m >= 10 && n >= 10 {
        assert(dec_rep(m).last() == dec_rep(n).last());
        assert(dec_rep(m).last() == dec_digit(m % 10));
        assert(dec_rep(n).last() == dec_digit(n % 10));
        lemma_dec_digit_injective(m % 10, n % 10);
        assert(m % 10 == n % 10);
        assert(dec_rep(m).drop_last() =~= dec_rep(m / 10));
        assert(dec_rep(n).drop_last() =~= dec_rep(n / 10));
        lemma_dec_rep_injective(m / 10, n / 10);
    } else if m < 10 {
        lemma_dec_rep_len(n / 10);
        assert(dec_rep(n).len() >= 2);
        assert(dec_rep(m).len() == 1);
    } else {
        lemma_dec_rep_len(m / 10);
        assert(dec_rep(m).len() >= 2);
        assert(dec_rep(n).len() == 1);
    }
}

/// The one-character string of a single decimal digit.
fn digit_str(d: u64) -> (r: &'static str)
    requires
        d < 10,
    ensures
        r@.len() == 1,
        r@[0] == dec_digit(d as nat),
{
    proof {
        reveal_strlit("0");
        reveal_strlit("1");
        reveal_strlit("2");
        reveal_strlit("3");
        reveal_strlit("4");
        reveal_strlit("5");
        reveal_strlit("6");
        reveal_strlit("7");
        reveal_strlit("8");
        reveal_strlit("9");
    }
    if d == 0 {
        "0"
    } else if d == 1 {
        "1"
    } else if d == 2 {
        "2"
    } else if d == 3 {
        "3"
    } else if d == 4 {
        "4"
    } else if d == 5 {
        "5"
    } else if d == 6 {
        "6"
    } else if d == 7 {
        "7"
    } else if d == 8 {
        "8"
    } else {
        "9"
    }
}

/// Renders `n` in decimal.
pub fn u64_to_dec(n: u64) -> (r: String)
    ensures
        r@ == dec_rep(n as nat),
    decreases n,
{
    if n < 10 {
        let r = String::from_str(digit_str(n));
        proof {
            assert(r@ =~= dec_rep(n as nat));
        }
        r
    } else {
        assert(n / 10 < n) by (nonlinear_arith)
            requires
                n >= 10,
        ;
        let mut r = u64_to_dec(n / 10);
        r.append(digit_str(n % 10));
        proof {
            assert(r@ =~= dec_rep(n as nat));
        }
        r
    }
}

/// The placeholder list for a `VALUES` clause of `n` single-column rows:
/// empty for `n == 0`, else `(?),(?),...,(?)` with `n` rows.
pub open spec fn values_marks(n: nat) -> Seq<char>
    decreases n,
{
    if n == 0 {
        Seq::empty()
    } else if n == 1 {
        "(?)"@
    } else {
        values_marks((n - 1) as nat) + ",(?)"@
    }
}

/// Builds the placeholder rows of a single-column `VALUES` clause, one row
/// per element of `list`; the elements themselves are bound as parameters
/// by the caller, never spliced into the text.
pub fn list_to_values(list: &Vec<String>) -> (r: String)
    ensures
        r@ == values_marks(list@.len()),
{
    let mut r = String::new();
    if list.len() > 0 {
        r.append("(?)");
        proof {
            assert(r@ =~= values_marks(1));
        }
    }
    let mut i: usize = 1;
    while i < list.len()
        invariant
            1 <= i || list@.len() == 0,
            i <= list@.len() || list@.len() == 0,
            list@.len() == 0 ==> r@ == values_marks(0),
            list@.len() > 0 ==> r@ == values_marks(i as nat),
        decreases list@.len() - i,
    {
        r.append(",(?)");
        i = i + 1;
        proof {
            assert(r@ =~= values_marks(i as nat));
        }
    }
    proof {
        if list@.len() == 0 {
            assert(r@ =~= values_marks(0));
        }
    }
    r
}

/// One placeholder row of a two-column `VALUES` clause whose first column
/// is the literal key `k`: `(k,?)`.
pub open spec fn keyed_mark(k: nat) -> Seq<char> {
    "("@ + dec_rep(k) + ",?)"@
}

/// The placeholder list for a `VALUES` clause of `n` two-column rows, each
/// carrying the key `k` and one placeholder.
pub open spec fn keyed_marks(k: nat, n: nat) -> Seq<char>
    decreases n,
{
    if n == 0 {
        Seq::empty()
    } else if n == 1 {
        keyed_mark(k)
    } else {
        keyed_marks(k, (n - 1) as nat) + ","@ + keyed_mark(k)
    }
}

/// Builds the placeholder rows of a two-column `VALUES` clause: every row
/// pairs the numeric key with one placeholder for an element of `list`.
pub fn list_to_values_and_key(key: u64, list: &Vec<String>) -> (r: String)
    ensures
        r@ == keyed_marks(key as nat, list@.len()),
{
    let key_dec = u64_to_dec(key);
    let mut r = String::new();
    if list.len() > 0 {
        r.append("(");
        r.append(key_dec.as_str());
        r.append(",?)");
        proof {
            assert(r@ =~= keyed_marks(key as nat, 1));
        }
    }
    let mut i: usize = 1;
    while i < list.len()
        invariant
            1 <= i || list@.len() == 0,
            i <= list@.len() || list@.len() == 0,
            key_dec@ == dec_rep(key as nat),
            list@.len() == 0 ==> r@ == keyed_marks(key as nat, 0),
            list@.len() > 0 ==> r@ == keyed_marks(key as nat, i as nat),
        decreases list@.len() - i,
    {
        r.append(",");
        r.append("(");
        r.append(key_dec.as_str());
        r.append(",?)");
        i = i + 1;
        proof {
            assert(r@ =~= keyed_marks(key as nat, i as nat));
        }
    }
    proof {
        if list@.len() == 0 {
            assert(r@ =~= keyed_marks(key as nat, 0));
        }
    }
    r
}

/// The inner placeholders of an `IN (...)` tuple: empty, `?`, or
/// `?,?,...,?` with `n` marks.
pub open spec fn tuple_inner_marks(n: nat) -> Seq<char>
    decreases n,
{
    if n == 0 {
        Seq::empty()
    } else if n == 1 {
        "?"@
    } else {
        tuple_inner_marks((n - 1) as nat) + ",?"@
    }
}

/// The placeholder tuple for an `IN (...)` test of `n` values.
pub open spec fn tuple_marks(n: nat) -> Seq<char> {
    "("@ + tuple_inner_marks(n) + ")"@
}

/// Builds the placeholder tuple of an `IN (...)` test, one mark per element
/// of `list`; the elements are bound as parameters by the caller.
pub fn list_to_sql(list: &Vec<String>) -> (r: String)
    ensures
        r@ == tuple_marks(list@.len()),
{
    let mut r = String::from_str("(");
    if list.len() > 0 {
        r.append("?");
        proof {
            assert(r@ =~= "("@ + tuple_inner_marks(1));
        }
    }
    let mut i: usize = 1;
    while i < list.len()
        invariant
            1 <= i || list@.len() == 0,
            i <= list@.len() || list@.len() == 0,
            list@.len() == 0 ==> r@ == "("@ + tuple_inner_marks(0),
            list@.len() > 0 ==> r@ == "("@ + tuple_inner_marks(i as nat),
        decreases list@.len() - i,
    {
        r.append(",?");
        i = i + 1;
        proof {
            assert(r@ =~= "("@ + tuple_inner_marks(i as nat));
        }
    }
    r.append(")");
    proof {
        if list@.len() == 0 {
            assert(r@ =~= tuple_marks(0));
        } else {
            assert(r@ =~= tuple_marks(list@.len()));
        }
    }
    r
}

} // verus!
