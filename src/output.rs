use vstd::prelude::*;

use crate::manifest::IntegrityFile;
use crate::repair::{failure_line, failure_text, RepairFailure};

verus! {

/// The separator between the lines of one message, which indents the lines after the
/// first under the message's badge.
pub open spec fn line_break() -> Seq<char> {
    "\n     "@
}

/// Lines joined into one message.
pub open spec fn joined_lines(lines: Seq<Seq<char>>) -> Seq<char>
    decreases lines.len(),
{
    if lines.len() == 0 {
        Seq::empty()
    } else if lines.len() == 1 {
        lines[0]
    } else {
        joined_lines(lines.drop_last()) + line_break() + lines.last()
    }
}

/// A value that can be shown as the text of a message.
pub trait ToDisplayable {
    /// The text shown.
    spec fn displayed(&self) -> Seq<char>;

    fn to_string(&self) -> (r: String)
        ensures
            r@ == self.displayed(),
    ;
}

impl<'a> ToDisplayable for &'a str {
    open spec fn displayed(&self) -> Seq<char> {
        (*self)@
    }

    fn to_string(&self) -> (r: String) {
        String::from_str(*self)
    }
}

impl ToDisplayable for String {
    open spec fn displayed(&self) -> Seq<char> {
        self@
    }

    fn to_string(&self) -> (r: String) {
        self.clone()
    }
}

impl ToDisplayable for Vec<String> {
    open spec fn displayed(&self) -> Seq<char> {
        joined_lines(self@.map_values(|s: String| s@))
    }

    fn to_string(&self) -> (r: String) {
        let ghost lines = self@.map_values(|s: String| s@);
        if self.len() == 0 {
            return String::new();
        }
        let mut out = self[0].clone();
        let mut i: usize = 1;
        assert(lines.take(1) =~= seq![lines[0]]);
        while i < self.len()
            invariant
                1 <= i <= self@.len(),
                lines == self@.map_values(|s: String| s@),
                out@ == joined_lines(lines.take(i as int)),
            decreases self.len() - i,
        {
            assert(lines.take(i + 1).drop_last() =~= lines.take(i as int));
            out.append("\n     ");
            out.append(self[i].as_str());
            i = i + 1;
        }
        assert(lines.take(i as int) =~= lines);
        out
    }
}

impl<'a> ToDisplayable for Vec<&'a str> {
    open spec fn displayed(&self) -> Seq<char> {
        joined_lines(self@.map_values(|s: &'a str| s@))
    }

    fn to_string(&self) -> (r: String) {
        let ghost lines = self@.map_values(|s: &'a str| s@);
        if self.len() == 0 {
            return String::new();
        }
        let mut out = String::from_str(self[0]);
        let mut i: usize = 1;
        assert(lines.take(1) =~= seq![lines[0]]);
        while i < self.len()
            invariant
                1 <= i <= self@.len(),
                lines == self@.map_values(|s: &'a str| s@),
                out@ == joined_lines(lines.take(i as int)),
            decreases self.len() - i,
        {
            assert(lines.take(i + 1).drop_last() =~= lines.take(i as int));
            out.append("\n     ");
            out.append(self[i]);
            i = i + 1;
        }
        assert(lines.take(i as int) =~= lines);
        out
    }
}

/// The character of a decimal digit.
pub open spec fn digit_char(d: int) -> char {
    seq!['0', '1', '2', '3', '4', '5', '6', '7', '8', '9'][d]
}

/// A number written in decimal, without leading zeros.
pub open spec fn decimal_text(n: nat) -> Seq<char>
    decreases n,
{
    if n < 10 {
        seq![digit_char(n as int)]
    } else {
        decimal_text(n / 10) + seq![digit_char((n % 10) as int)]
    }
}

fn digit_str(d: usize) -> (r: &'static str)
    requires
        d < 10,
    ensures
        r@ == seq![digit_char(d as int)],
{
    proof {
        reveal_strlit("0");
        reveal_strlit("1");
        reveal_strlit("2");
        reveal_strlit("3");
        reveal_strlit("4");
        reveal_strlit("5");
        reveal_strlit("6");
        reveal_strlit("7");
        reveal_strlit("8");
        reveal_strlit("9");
    }
    let r = match d {
        0 => "0",
        1 => "1",
        2 => "2",
        3 => "3",
        4 => "4",
        5 => "5",
        6 => "6",
        7 => "7",
        8 => "8",
        _ => "9",
    };
    assert(r@ =~= seq![digit_char(d as int)]);
    r
}

/// `n` written in decimal.
pub fn decimal(n: usize) -> (r: String)
    ensures
        r@ == decimal_text(n as nat),
    decreases n,
{
    if n < 10 {
        String::from_str(digit_str(n))
    } else {
        let mut r = decimal(n / 10);
        r.append(digit_str(n % 10));
        r
    }
}

/// The lines announcing the damaged files: a count, then one line per path.
pub open spec fn damage_report_text(damaged: Seq<IntegrityFile>) -> Seq<Seq<char>> {
    seq!["Found "@ + decimal_text(damaged.len()) + " broken files"@] + damaged.map_values(
        |f: IntegrityFile| "- "@ + f.path@,
    )
}

/// `Found {n} broken files`, then `- {path}` for each damaged file.
pub fn damage_report(damaged: &Vec<IntegrityFile>) -> (r: Vec<String>)
    ensures
        r@.map_values(|s: String| s@) == damage_report_text(damaged@),
{
    let mut head = String::from_str("Found ");
    head.append(decimal(damaged.len()).as_str());
    head.append(" broken files");
    let mut lines: Vec<String> = Vec::new();
    lines.push(head);
    let ghost paths = damaged@.map_values(|f: IntegrityFile| "- "@ + f.path@);
    let mut i: usize = 0;
    while i < damaged.len()
        invariant
            i <= damaged@.len(),
            paths == damaged@.map_values(|f: IntegrityFile| "- "@ + f.path@),
            lines@.len() == i + 1,
            lines@.map_values(|s: String| s@) == seq![
                "Found "@ + decimal_text(damaged@.len()) + " broken files"@,
            ] + paths.take(i as int),
        decreases damaged.len() - i,
    {
        let mut line = String::from_str("- ");
        line.append(damaged[i].path.as_str());
        let ghost before = lines@;
        lines.push(line);
        proof {
            let want = seq!["Found "@ + decimal_text(damaged@.len()) + " broken files"@] + paths.take(
                i + 1,
            );
            let now = lines@.map_values(|s: String| s@);
            assert forall|q: int| 0 <= q < now.len() implies now[q] == want[q] by {
                if q < before.len() {
                    assert(lines@[q] == before[q]);
                    assert(before.map_values(|s: String| s@)[q] == now[q]);
                }
            }
            assert(now =~= want);
        }
        i = i + 1;
    }
    assert(paths.take(i as int) =~= paths);
    lines
}

/// One report line per file that could not be repaired, in order.
pub fn failure_report(failures: &Vec<RepairFailure>) -> (r: Vec<String>)
    ensures
        r@.map_values(|s: String| s@) == failures@.map_values(|f: RepairFailure| failure_text(f)),
{
    let mut lines: Vec<String> = Vec::new();
    let mut i: usize = 0;
    while i < failures.len()
        invariant
            i <= failures@.len(),
            lines@.len() == i,
            lines@.map_values(|s: String| s@) == failures@.map_values(
                |f: RepairFailure| failure_text(f),
            ).take(i as int),
        decreases failures.len() - i,
    {
        let ghost before = lines@;
        lines.push(failure_line(&failures[i]));
        proof {
            let want = failures@.map_values(|f: RepairFailure| failure_text(f)).take(i + 1);
            let now = lines@.map_values(|s: String| s@);
            assert forall|q: int| 0 <= q < now.len() implies now[q] == want[q] by {
                if q < before.len() {
                    assert(lines@[q] == before[q]);
                    assert(before.map_values(|s: String| s@)[q] == now[q]);
                }
            }
            assert(now =~= want);
        }
        i = i + 1;
    }
    assert(failures@.map_values(|f: RepairFailure| failure_text(f)).take(i as int) =~= failures@.map_values(
        |f: RepairFailure| failure_text(f),
    ));
    lines
}

} // verus!
