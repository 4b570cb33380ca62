//! How excerpts are shown: arguments for `bat`, or plain text.
use vstd::prelude::*;
use vstd::string::StringExecFns;
use vstd::string::StrSliceExecFns;
use crate::range_union::{is_sorted_listing, merged, RangeUnion};
use crate::text::{decimal, decimal_string};
use std::ops::Range;

verus! {

/// How long lines are shown.
#[derive(Copy, Clone, Debug, PartialEq, Eq, Structural, PartialOrd, Ord)]
pub enum WrapMode {
    Auto,
    Never,
    Character,
}

/// How excerpts are to be shown.
pub struct OutputOptions {
    pub wrap: WrapMode,
    /// How many times plain output was asked for.
    pub plain: u8,
    pub use_color: bool,
    /// Rows and columns of the terminal, if known.
    pub terminal_size: Option<(u16, u16)>,
}

impl WrapMode {
    /// The mode's name, as `bat` spells it.
    pub fn as_str(&self) -> (r: &'static str)
        ensures
            r@ == wrap_name(*self),
    {
        match self {
            WrapMode::Auto => "auto",
            WrapMode::Never => "never",
            WrapMode::Character => "character",
        }
    }
}

pub open spec fn wrap_name(w: WrapMode) -> Seq<char> {
    match w {
        WrapMode::Auto => "auto"@,
        WrapMode::Never => "never"@,
        WrapMode::Character => "character"@,
    }
}

/// `bat`'s option for one range: 1-based first line and inclusive last line.
pub open spec fn line_range_arg(r: (usize, usize)) -> Seq<char> {
    "--line-range="@ + decimal((r.0 + 1) as nat) + ":"@ + decimal(r.1 as nat)
}

/// The options that make `bat` show the given ranges as the options ask.
pub open spec fn bat_args_spec(o: OutputOptions, ranges: Seq<(usize, usize)>) -> Seq<Seq<char>> {
    let fixed = seq!["--paging=never"@, "--wrap="@ + wrap_name(o.wrap), if o.use_color { "--color=always"@ } else { "--color=never"@ }];
    let width = match o.terminal_size {
        Some((_rows, cols)) => seq!["--terminal-width="@ + decimal(cols as nat)],
        None => Seq::empty(),
    };
    let plain = if o.plain > 0 { seq!["--plain"@] } else { Seq::empty() };
    fixed + width + plain + ranges.map_values(|r: (usize, usize)| line_range_arg(r))
}

pub open spec fn strings_of(v: Seq<String>) -> Seq<Seq<char>> {
    v.map_values(|s: String| s@)
}

/// Once merged with one-line gaps filled, every range of `m` starts before the
/// last `usize`, so `bat` can number its first line.
pub open spec fn bat_can_number(m: Map<usize, usize>) -> bool {
    forall|listing: Seq<(usize, usize)>, j: int|
        #![trigger is_sorted_listing(listing, m), merged(listing, 1)[j]]
        is_sorted_listing(listing, m) && 0 <= j < merged(listing, 1).len() ==> merged(listing, 1)[j].0 < usize::MAX
}

/// The options for `bat` that show `ranges` (with one-line gaps filled, since a
/// gap marker takes a line anyway).
pub fn bat_arguments(options: &OutputOptions, ranges: &RangeUnion) -> (r: Vec<String>)
    requires
        bat_can_number(ranges@),
    ensures
        exists|listing: Seq<(usize, usize)>| #[trigger] is_sorted_listing(listing, ranges@)
            && strings_of(r@) == bat_args_spec(*options, merged(listing, 1)),
{
    proof {
        reveal_strlit("--paging=never");
        reveal_strlit("--wrap=");
        reveal_strlit("--color=always");
        reveal_strlit("--color=never");
        reveal_strlit("--terminal-width=");
        reveal_strlit("--plain");
        reveal_strlit("--line-range=");
        reveal_strlit(":");
    }
    let mut args: Vec<String> = Vec::new();
    args.push(String::from_str("--paging=never"));
    args.push(String::from_str("--wrap=").concat(options.wrap.as_str()));
    args.push(if options.use_color { String::from_str("--color=always") } else { String::from_str("--color=never") });
    match options.terminal_size {
        Some((_rows, cols)) => {
            args.push(String::from_str("--terminal-width=").concat(decimal_string(cols as usize).as_str()));
        },
        None => {},
    }
    if options.plain > 0 {
        args.push(String::from_str("--plain"));
    }
    let ghost prefix = strings_of(args@);
    let rs = ranges.merged_ranges(1);
    let ghost listing = choose|listing: Seq<(usize, usize)>| #[trigger] is_sorted_listing(listing, ranges@) && {
        let m = merged(listing, 1);
        &&& rs@.len() == m.len()
        &&& forall|i: int| 0 <= i < m.len() ==> (#[trigger] rs@[i]).start == m[i].0 && rs@[i].end == m[i].1
    };
    let ghost m = merged(listing, 1);
    assert forall|j: int| 0 <= j < m.len() implies (#[trigger] m[j]).0 < usize::MAX by {
        assert(is_sorted_listing(listing, ranges@));
    }
    let mut i: usize = 0;
    while i < rs.len()
        invariant
            0 <= i <= rs@.len(),
            rs@.len() == m.len(),
            forall|j: int| 0 <= j < m.len() ==> (#[trigger] rs@[j]).start == m[j].0 && rs@[j].end == m[j].1,
            forall|j: int| 0 <= j < m.len() ==> (#[trigger] m[j]).0 < usize::MAX,
            strings_of(args@) == prefix + m.take(i as int).map_values(|r: (usize, usize)| line_range_arg(r)),
        decreases rs.len() - i,
    {
        let r = &rs[i];
        assert(r.start == m[i as int].0);
        let a = String::from_str("--line-range=").concat(decimal_string(r.start + 1).as_str()).concat(":").concat(
            decimal_string(r.end).as_str(),
        );
        let ghost before = strings_of(args@);
        args.push(a);
        assert(strings_of(args@) == before.push(a@));
        assert(m.take(i + 1).map_values(|r: (usize, usize)| line_range_arg(r))
            == m.take(i as int).map_values(|r: (usize, usize)| line_range_arg(r)).push(line_range_arg(m[i as int])));
        i = i + 1;
    }
    assert(m.take(m.len() as int) == m);
    args
}

/// `n` copies of `c`.
pub open spec fn repeat_char(c: char, n: nat) -> Seq<char> {
    Seq::new(n, |_i: int| c)
}

fn repeat(c: char, n: usize) -> (r: String)
    ensures
        r@ == repeat_char(c, n as nat),
{
    let one = crate::text::char_string(c);
    let mut out = String::new();
    let mut i: usize = 0;
    while i < n
        invariant
            0 <= i <= n,
            one@ == seq![c],
            out@ == repeat_char(c, i as nat),
        decreases n - i,
    {
        out.append(one.as_str());
        assert(out@ =~= repeat_char(c, (i + 1) as nat));
        i = i + 1;
    }
    out
}

/// The margin before line number `number`, right-aligned in `width` columns.
pub open spec fn line_number_margin(number: nat, width: nat) -> Seq<char> {
    let digits = decimal(number);
    " "@ + repeat_char(' ', if digits.len() < width { (width - digits.len()) as nat } else { 0 }) + digits + " | "@
}

/// What the walk over the file's lines prints, from line `i` on, while the
/// merged ranges `rs` remain: lines before the current range are skipped, lines
/// in it are printed (numbered if asked), and the first line past it prints the
/// separator instead and moves to the next range; after the last range it stops.
/// A line to print that is not text (`None`) stops the walk after its number.
pub open spec fn excerpt_lines(
    lines: Seq<Option<Seq<char>>>,
    i: nat,
    rs: Seq<(usize, usize)>,
    number_lines: bool,
    width: nat,
    sep: Seq<char>,
) -> Seq<char>
    decreases lines.len(),
{
    if lines.len() == 0 || rs.len() == 0 {
        Seq::empty()
    } else if i < rs[0].0 {
        excerpt_lines(lines.drop_first(), i + 1, rs, number_lines, width, sep)
    } else if i >= rs[0].1 {
        if rs.len() == 1 {
            Seq::empty()
        } else {
            sep + "\n"@ + excerpt_lines(lines.drop_first(), i + 1, rs.drop_first(), number_lines, width, sep)
        }
    } else {
        (if number_lines { line_number_margin(i + 1, width) } else { Seq::empty() }) + match lines[0] {
            Some(t) => t + "\n"@ + excerpt_lines(lines.drop_first(), i + 1, rs, number_lines, width, sep),
            None => Seq::empty(),
        }
    }
}

/// Whether the walk of [`excerpt_lines`] stops at a line to print that is not text.
pub open spec fn excerpt_stops(lines: Seq<Option<Seq<char>>>, i: nat, rs: Seq<(usize, usize)>) -> bool
    decreases lines.len(),
{
    if lines.len() == 0 || rs.len() == 0 {
        false
    } else if i < rs[0].0 {
        excerpt_stops(lines.drop_first(), i + 1, rs)
    } else if i >= rs[0].1 {
        if rs.len() == 1 { false } else { excerpt_stops(lines.drop_first(), i + 1, rs.drop_first()) }
    } else {
        match lines[0] {
            Some(_) => excerpt_stops(lines.drop_first(), i + 1, rs),
            None => true,
        }
    }
}

/// The width of separator lines: one less than the terminal is wide, 39 when unknown.
pub open spec fn separator_width(terminal_size: Option<(u16, u16)>) -> nat {
    let cols = match terminal_size {
        Some((_rows, cols)) => cols as nat,
        None => 40,
    };
    if cols > 0 { (cols - 1) as nat } else { 0 }
}

/// The excerpt as plain text: nothing for no ranges; else a header naming the
/// file between `=` rules, then the walk over the lines with `-` rules between
/// ranges, line numbers padded to the width of the farthest range end.
pub open spec fn plain_excerpt(
    name: Seq<char>,
    lines: Seq<Option<Seq<char>>>,
    farthest_end: Option<usize>,
    rs: Seq<(usize, usize)>,
    number_lines: bool,
    terminal_size: Option<(u16, u16)>,
) -> Seq<char> {
    let cols = separator_width(terminal_size);
    match farthest_end {
        None => Seq::empty(),
        Some(e) => {
            let sep2 = repeat_char('=', cols);
            sep2 + "\n"@ + name + "\n"@ + sep2 + "\n"@
                + excerpt_lines(lines, 0, rs, number_lines, decimal(e as nat).len(), repeat_char('-', cols))
        },
    }
}

/// The lines as text, `None` for a line that is not.
pub open spec fn opt_strings_of(v: Seq<Option<String>>) -> Seq<Option<Seq<char>>> {
    v.map_values(|s: Option<String>| match s {
        Some(t) => Some(t@),
        None => None,
    })
}

/// The lines of `lines` that `ranges` select, as plain text headed by `name`
/// (what is printed when `bat` is not available); `None` stands for a line
/// that is not UTF-8. Also whether the text stops at such a line, which it
/// does after the line's number.
pub fn plain_excerpt_text(
    name: &str,
    lines: &Vec<Option<String>>,
    ranges: &RangeUnion,
    number_lines: bool,
    terminal_size: Option<(u16, u16)>,
) -> (r: (String, bool))
    requires
        lines@.len() < usize::MAX,
    ensures
        exists|listing: Seq<(usize, usize)>| #[trigger] is_sorted_listing(listing, ranges@) && {
            let m = merged(listing, 1);
            &&& r.0@ == plain_excerpt(name@, opt_strings_of(lines@), ranges.end_spec(), m, number_lines, terminal_size)
            &&& r.1 == (ranges.end_spec() is Some && excerpt_stops(opt_strings_of(lines@), 0, m))
        },
{
    proof {
        reveal_strlit("\n");
        reveal_strlit(" ");
        reveal_strlit(" | ");
    }
    let cols: usize = match terminal_size {
        Some((_rows, c)) => if c > 0 { (c - 1) as usize } else { 0 },
        None => 39,
    };
    let farthest = ranges.end();
    let rs = ranges.merged_ranges(1);
    let ghost listing = choose|listing: Seq<(usize, usize)>| #[trigger] is_sorted_listing(listing, ranges@) && {
        let m = merged(listing, 1);
        &&& rs@.len() == m.len()
        &&& forall|i: int| 0 <= i < m.len() ==> (#[trigger] rs@[i]).start == m[i].0 && rs@[i].end == m[i].1
    };
    let ghost m = merged(listing, 1);
    let max_line = match farthest {
        None => {
            return (String::new(), false);
        },
        Some(e) => e,
    };
    let width = decimal_string(max_line).as_str().unicode_len();
    let sep1 = repeat('-', cols);
    let sep2 = repeat('=', cols);
    let mut out = String::new();
    out.append(sep2.as_str());
    out.append("\n");
    out.append(name);
    out.append("\n");
    out.append(sep2.as_str());
    out.append("\n");
    let ghost header = out@;
    let ghost ls = opt_strings_of(lines@);
    let mut i: usize = 0;
    let mut j: usize = 0;
    let mut done = false;
    let mut stopped = false;
    assert(ls.skip(0) == ls);
    assert(m.skip(0) == m);
    while i < lines.len() && !done
        invariant
            0 <= i <= lines@.len(),
            lines@.len() < usize::MAX,
            ls == opt_strings_of(lines@),
            rs@.len() == m.len(),
            forall|k: int| 0 <= k < m.len() ==> (#[trigger] rs@[k]).start == m[k].0 && rs@[k].end == m[k].1,
            j <= m.len(),
            sep1@ == repeat_char('-', cols as nat),
            done ==> out@ == header + excerpt_lines(ls, 0, m, number_lines, width as nat, sep1@),
            done ==> stopped == excerpt_stops(ls, 0, m),
            !done ==> !stopped && excerpt_stops(ls, 0, m) == excerpt_stops(ls.skip(i as int), i as nat, m.skip(j as int)),
            !done ==> header + excerpt_lines(ls, 0, m, number_lines, width as nat, sep1@)
                == out@ + excerpt_lines(ls.skip(i as int), i as nat, m.skip(j as int), number_lines, width as nat, sep1@),
        decreases lines@.len() - i, if done { 0nat } else { 1nat },
    {
        let ghost rest = ls.skip(i as int);
        let ghost rrest = m.skip(j as int);
        assert(rest.len() > 0);
        assert(rest[0] == match lines@[i as int] {
            Some(t) => Some(t@),
            None => None::<Seq<char>>,
        });
        assert(rest.drop_first() == ls.skip(i + 1));
        if j >= rs.len() {
            assert(excerpt_lines(rest, i as nat, rrest, number_lines, width as nat, sep1@) == Seq::<char>::empty());
            assert(out@ =~= out@ + Seq::<char>::empty());
            done = true;
        } else {
            let start = rs[j].start;
            let end = rs[j].end;
            assert(rrest[0] == m[j as int]);
            if i < start {
                i = i + 1;
            } else if i >= end {
                if j + 1 >= rs.len() {
                    assert(excerpt_lines(rest, i as nat, rrest, number_lines, width as nat, sep1@) == Seq::<char>::empty());
                    assert(out@ =~= out@ + Seq::<char>::empty());
                    done = true;
                } else {
                    let ghost before = out@;
                    out.append(sep1.as_str());
                    out.append("\n");
                    assert(rrest.drop_first() == m.skip(j + 1));
                    assert(before + excerpt_lines(rest, i as nat, rrest, number_lines, width as nat, sep1@)
                        =~= out@ + excerpt_lines(ls.skip(i + 1), (i + 1) as nat, m.skip(j + 1), number_lines, width as nat, sep1@));
                    j = j + 1;
                    i = i + 1;
                }
            } else {
                let ghost before = out@;
                if number_lines {
                    let digits = decimal_string(i + 1);
                    let nd = digits.as_str().unicode_len();
                    let pad = if nd < width { width - nd } else { 0 };
                    out.append(" ");
                    out.append(repeat(' ', pad).as_str());
                    out.append(digits.as_str());
                    out.append(" | ");
                    assert(out@ =~= before + line_number_margin((i + 1) as nat, width as nat));
                }
                let ghost mid = out@;
                match &lines[i] {
                    Some(text) => {
                        out.append(text.as_str());
                        out.append("\n");
                        assert(before + excerpt_lines(rest, i as nat, rrest, number_lines, width as nat, sep1@)
                            =~= out@ + excerpt_lines(ls.skip(i + 1), (i + 1) as nat, rrest, number_lines, width as nat, sep1@));
                        i = i + 1;
                    },
                    None => {
                        assert(out@ =~= before + excerpt_lines(rest, i as nat, rrest, number_lines, width as nat, sep1@));
                        stopped = true;
                        done = true;
                    },
                }
            }
        }
    }
    if !done {
        assert(ls.skip(i as int).len() == 0);
        assert(out@ =~= out@ + Seq::<char>::empty());
    }
    (out, stopped)
}

} // verus!
