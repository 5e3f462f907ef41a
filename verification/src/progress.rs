//! Progress reporting helpers: explicit configuration instead of process-wide
//! state, and the host progress-protocol line format.

use vstd::prelude::*;

verus! {

/// Progress configuration carried explicitly by the caller, so independent
/// runs cannot interfere with one another.
pub struct ProgressConfig {
    quiet_symlink_info: bool,
    disabled: bool,
}

impl ProgressConfig {
    pub closed spec fn quiet_view(&self) -> bool {
        self.quiet_symlink_info
    }

    pub closed spec fn disabled_view(&self) -> bool {
        self.disabled
    }

    /// Verbose per-item logging on, progress rendering allowed.
    pub fn new() -> (r: ProgressConfig)
        ensures
            !r.quiet_view(),
            !r.disabled_view(),
    {
        ProgressConfig { quiet_symlink_info: false, disabled: false }
    }

    /// Whether per-item symlink logging is enabled (it is quieted while a
    /// progress bar is active).
    pub fn symlink_info_enabled(&self) -> (r: bool)
        ensures
            r == !self.quiet_view(),
    {
        !self.quiet_symlink_info
    }

    /// Quiet the per-item symlink logging.
    pub fn enable_symlink_quiet(&mut self)
        ensures
            final(self).quiet_view(),
            final(self).disabled_view() == old(self).disabled_view(),
    {
        self.quiet_symlink_info = true;
    }

    /// Restore per-item symlink logging.
    pub fn disable_symlink_quiet(&mut self)
        ensures
            !final(self).quiet_view(),
            final(self).disabled_view() == old(self).disabled_view(),
    {
        self.quiet_symlink_info = false;
    }

    /// Disable or re-enable progress rendering globally for this run.
    pub fn set_disabled(&mut self, disabled: bool)
        ensures
            final(self).disabled_view() == disabled,
            final(self).quiet_view() == old(self).quiet_view(),
    {
        self.disabled = disabled;
    }

    /// Whether progress rendering is currently disabled.
    pub fn is_disabled(&self) -> (r: bool)
        ensures
            r == self.disabled_view(),
    {
        self.disabled
    }
}

/// The decimal digits of `n`, most significant first.
pub open spec fn spec_decimal(n: nat) -> Seq<char>
    decreases n,
{
    if n < 10 {
        seq![spec_digit(n)]
    } else {
        spec_decimal(n / 10).push(spec_digit(n % 10))
    }
}

/// The character for one decimal digit.
pub open spec fn spec_digit(d: nat) -> char {
    if d == 0 {
        '0'
    } else if d == 1 {
        '1'
    } else if d == 2 {
        '2'
    } else if d == 3 {
        '3'
    } else if d == 4 {
        '4'
    } else if d == 5 {
        '5'
    } else if d == 6 {
        '6'
    } else if d == 7 {
        '7'
    } else if d == 8 {
        '8'
    } else {
        '9'
    }
}

/// One decimal digit as a string slice.
fn digit_str(d: usize) -> (r: &'static str)
    requires
        d < 10,
    ensures
        r@ == seq![spec_digit(d as nat)],
{
    proof {
        reveal_strlit("0");
        reveal_strlit("1");
        reveal_strlit("2");
        reveal_strlit("3");
        reveal_strlit("4");
        reveal_strlit("5");
        reveal_strlit("6");
        reveal_strlit("7");
        reveal_strlit("8");
        reveal_strlit("9");
    }
    let r: &'static str = if d == 0 {
        "0"
    } else if d == 1 {
        "1"
    } else if d == 2 {
        "2"
    } else if d == 3 {
        "3"
    } else if d == 4 {
        "4"
    } else if d == 5 {
        "5"
    } else if d == 6 {
        "6"
    } else if d == 7 {
        "7"
    } else if d == 8 {
        "8"
    } else {
        "9"
    };
    proof {
        assert(r@ =~= seq![spec_digit(d as nat)]);
    }
    r
}

/// Render an unsigned number in decimal.
pub fn usize_to_string(n: usize) -> (r: String)
    ensures
        r@ == spec_decimal(n as nat),
    decreases n,
{
    if n < 10 {
        digit_str(n).to_owned()
    } else {
        let mut s = usize_to_string(n / 10);
        s.append(digit_str(n % 10));
        proof {
            assert(s@ =~= spec_decimal(n as nat));
        }
        s
    }
}

/// The host progress-protocol line: `PB> <current>/<total>`, with an optional
/// trailing label.
pub open spec fn spec_host_pb_line(current: nat, total: nat, label: Seq<char>) -> Seq<char> {
    if label.len() == 0 {
        "PB> "@ + spec_decimal(current) + "/"@ + spec_decimal(total)
    } else {
        "PB> "@ + spec_decimal(current) + "/"@ + spec_decimal(total) + " "@ + label
    }
}

/// Format a host progress protocol line.
pub fn fmt_host_pb_line(current: usize, total: usize, label: &str) -> (r: String)
    ensures
        r@ == spec_host_pb_line(current as nat, total as nat, label@),
{
    let mut out = "PB> ".to_owned();
    let cur = usize_to_string(current);
    out.append(cur.as_str());
    out.append("/");
    let tot = usize_to_string(total);
    out.append(tot.as_str());
    if label.unicode_len() > 0 {
        out.append(" ");
        out.append(label);
    }
    out
}

} // verus!
