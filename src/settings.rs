use vstd::prelude::*;

use crate::text::same_chars;

verus! {

/// A named value that the command line gave, after alias resolution: `name` is the
/// canonical flag name (`--threads`), `value` its text (a flag's value is its name).
pub struct ArgumentValue {
    pub name: String,
    pub value: String,
}

/// Why the repair settings could not be built.
#[derive(PartialEq, Eq, Structural, Clone, Copy, Debug)]
pub enum SettingsError {
    /// A thread count is not a positive decimal number that fits in `usize`.
    InvalidThreadCount,
    /// A flag that the repair commands do not take.
    UnknownArgument,
}

/// Tuning knobs of a verify-and-repair run.
pub struct RepairFilesConfig {
    /// Worker count for verification.
    pub verify_threads: usize,
    /// Worker count for repair.
    pub repair_threads: usize,
    /// Case-insensitive substrings of paths to skip.
    pub ignore: Vec<String>,
    /// Verify only; never repair.
    pub just_verify: bool,
    /// Compare sizes only, not checksums.
    pub fast: bool,
}

/// The settings as plain values.
pub struct SettingsView {
    pub verify_threads: usize,
    pub repair_threads: usize,
    pub ignore: Seq<Seq<char>>,
    pub just_verify: bool,
    pub fast: bool,
}

impl View for RepairFilesConfig {
    type V = SettingsView;

    open spec fn view(&self) -> SettingsView {
        SettingsView {
            verify_threads: self.verify_threads,
            repair_threads: self.repair_threads,
            ignore: self.ignore@.map_values(|s: String| s@),
            just_verify: self.just_verify,
            fast: self.fast,
        }
    }
}

impl RepairFilesConfig {
    /// Both thread counts are positive.
    pub open spec fn well_formed(&self) -> bool {
        self.verify_threads >= 1 && self.repair_threads >= 1
    }
}

impl Clone for RepairFilesConfig {
    fn clone(&self) -> (r: Self)
        ensures
            r@ == self@,
            r.ignore@ == self.ignore@,
    {
        RepairFilesConfig {
            verify_threads: self.verify_threads,
            repair_threads: self.repair_threads,
            ignore: self.ignore.clone(),
            just_verify: self.just_verify,
            fast: self.fast,
        }
    }
}

/// Four threads of each kind, nothing ignored, full verification followed by repair.
pub open spec fn default_settings() -> SettingsView {
    SettingsView {
        verify_threads: 4,
        repair_threads: 4,
        ignore: Seq::empty(),
        just_verify: false,
        fast: false,
    }
}

impl Default for RepairFilesConfig {
    fn default() -> (r: Self)
        ensures
            r@ == default_settings(),
    {
        let r = RepairFilesConfig {
            verify_threads: 4,
            repair_threads: 4,
            ignore: Vec::new(),
            just_verify: false,
            fast: false,
        };
        assert(r@.ignore =~= Seq::<Seq<char>>::empty());
        r
    }
}

/// The value of a run of decimal digits.
pub open spec fn digits_value(s: Seq<char>) -> int
    decreases s.len(),
{
    if s.len() == 0 {
        0
    } else {
        digits_value(s.drop_last()) * 10 + (s.last() as int - '0' as int)
    }
}

/// Every character is an ASCII decimal digit.
pub open spec fn all_digits(s: Seq<char>) -> bool {
    forall|i: int| 0 <= i < s.len() ==> '0' <= #[trigger] s[i] <= '9'
}

/// The text without one leading `+`, as `usize`'s `FromStr` reads it.
pub open spec fn unsigned_digits(s: Seq<char>) -> Seq<char> {
    if s.len() > 0 && s[0] == '+' {
        s.drop_first()
    } else {
        s
    }
}

/// The number a text denotes as a `usize`: an optional `+` then at least one decimal
/// digit, within `usize`'s range.
pub open spec fn parsed_usize(s: Seq<char>) -> Option<usize> {
    let d = unsigned_digits(s);
    if d.len() > 0 && all_digits(d) && digits_value(d) <= usize::MAX {
        Some(digits_value(d) as usize)
    } else {
        None
    }
}

proof fn lemma_digits_value_nonneg(s: Seq<char>)
    requires
        all_digits(s),
    ensures
        digits_value(s) >= 0,
    decreases s.len(),
{
    if s.len() > 0 {
        lemma_digits_value_nonneg(s.drop_last());
    }
}

/// Reads a `usize` written in decimal.
pub fn parse_usize(text: &str) -> (r: Option<usize>)
    ensures
        r == parsed_usize(text@),
{
    let n = text.unicode_len();
    let mut start: usize = 0;
    if n > 0 && text.get_char(0) == '+' {
        start = 1;
    }
    let ghost d = unsigned_digits(text@);
    assert(d =~= text@.subrange(start as int, n as int));
    if start == n {
        return None;
    }
    let limit: u128 = usize::MAX as u128;
    let mut value: u128 = 0;
    let mut i: usize = start;
    while i < n
        invariant
            n == text@.len(),
            start <= i <= n,
            d == text@.subrange(start as int, n as int),
            d == unsigned_digits(text@),
            all_digits(d.take(i - start)),
            limit == usize::MAX,
            value == if digits_value(d.take(i - start)) > limit {
                limit + 1
            } else {
                digits_value(d.take(i - start))
            },
        decreases n - i,
    {
        let c = text.get_char(i);
        if c < '0' || c > '9' {
            assert(d[i - start] == c);
            assert(!('0' <= d[i - start] <= '9'));
            assert(!all_digits(d));
            return None;
        }
        let digit = (c as u32 - '0' as u32) as u128;
        let ghost prev = d.take(i - start);
        let ghost next = d.take(i - start + 1);
        proof {
            assert(next.drop_last() =~= prev);
            assert(next.last() == c);
            lemma_digits_value_nonneg(prev);
        }
        if value > limit {
            proof {
                assert(digits_value(next) > limit) by (nonlinear_arith)
                    requires
                        digits_value(next) == digits_value(prev) * 10 + digit,
                        digits_value(prev) > limit,
                        digit >= 0,
                ;
            }
        } else {
            value = value * 10 + digit;
            if value > limit {
                value = limit + 1;
            }
        }
        i = i + 1;
        assert(all_digits(next));
    }
    assert(d.take(n - start) =~= d);
    if value > limit {
        None
    } else {
        Some(value as usize)
    }
}

/// Splits a text at every `sep`, as `str::split` does with a one-character pattern:
/// `k` separators give `k + 1` pieces, empty ones included.
pub open spec fn split_at_char(s: Seq<char>, sep: char) -> Seq<Seq<char>>
    decreases s.len(),
{
    if s.len() == 0 {
        seq![Seq::empty()]
    } else {
        let pieces = split_at_char(s.drop_last(), sep);
        if s.last() == sep {
            pieces.push(Seq::empty())
        } else {
            pieces.update(pieces.len() - 1, pieces.last().push(s.last()))
        }
    }
}

proof fn lemma_split_nonempty(s: Seq<char>, sep: char)
    ensures
        split_at_char(s, sep).len() >= 1,
    decreases s.len(),
{
    if s.len() > 0 {
        lemma_split_nonempty(s.drop_last(), sep);
    }
}

/// The comma-separated pieces of a text.
pub fn split_commas(text: &str) -> (r: Vec<String>)
    ensures
        r@.map_values(|p: String| p@) == split_at_char(text@, ','),
{
    let n = text.unicode_len();
    let mut pieces: Vec<String> = Vec::new();
    let mut start: usize = 0;
    let mut i: usize = 0;
    assert(text@.take(0) =~= Seq::<char>::empty());
    assert(pieces@.map_values(|p: String| p@).push(text@.subrange(0, 0)) =~= seq![
        Seq::<char>::empty(),
    ]);
    assert(pieces@.map_values(|p: String| p@).push(text@.subrange(0, 0)) =~= split_at_char(
        text@.take(0),
        ',',
    ));
    while i < n
        invariant
            n == text@.len(),
            start <= i <= n,
            pieces@.map_values(|p: String| p@).push(text@.subrange(start as int, i as int))
                == split_at_char(text@.take(i as int), ','),
        decreases n - i,
    {
        let ghost before = pieces@.map_values(|p: String| p@);
        proof {
            assert(text@.take(i + 1).drop_last() =~= text@.take(i as int));
            lemma_split_nonempty(text@.take(i as int), ',');
        }
        if text.get_char(i) == ',' {
            let ghost old_start = start;
            let piece = String::from_str(text.substring_char(start, i));
            pieces.push(piece);
            start = i + 1;
            proof {
                assert(pieces@.map_values(|p: String| p@) =~= before.push(
                    text@.subrange(old_start as int, i as int),
                ));
                assert(text@.subrange(start as int, i + 1) =~= Seq::<char>::empty());
            }
        } else {
            proof {
                assert(text@.subrange(start as int, i + 1) =~= text@.subrange(
                    start as int,
                    i as int,
                ).push(text@[i as int]));
                assert(before.push(text@.subrange(start as int, i as int)).update(
                    before.len() as int,
                    text@.subrange(start as int, i + 1),
                ) =~= before.push(text@.subrange(start as int, i + 1)));
            }
        }
        i = i + 1;
    }
    let ghost before = pieces@.map_values(|p: String| p@);
    let last = String::from_str(text.substring_char(start, n));
    pieces.push(last);
    proof {
        assert(text@.take(n as int) =~= text@);
        assert(pieces@.map_values(|p: String| p@) =~= before.push(
            text@.subrange(start as int, n as int),
        ));
    }
    pieces
}

/// The effect of one command-line value on the settings.
pub open spec fn apply_argument(s: SettingsView, name: Seq<char>, value: Seq<char>) -> Result<
    SettingsView,
    SettingsError,
> {
    if name == "--threads"@ || name == "--verify-threads"@ || name == "--repair-threads"@ {
        match parsed_usize(value) {
            Some(t) if t >= 1 => Ok(
                if name == "--threads"@ {
                    SettingsView { verify_threads: t, repair_threads: t, ..s }
                } else if name == "--verify-threads"@ {
                    SettingsView { verify_threads: t, ..s }
                } else {
                    SettingsView { repair_threads: t, ..s }
                },
            ),
            _ => Err(SettingsError::InvalidThreadCount),
        }
    } else if name == "--ignore"@ {
        Ok(SettingsView { ignore: split_at_char(value, ','), ..s })
    } else if name == "--verify"@ {
        Ok(SettingsView { just_verify: true, ..s })
    } else if name == "--fast"@ {
        Ok(SettingsView { fast: true, ..s })
    } else {
        Err(SettingsError::UnknownArgument)
    }
}

/// The settings that a list of command-line values gives, applied in order over the
/// defaults; the first value that is refused decides the error.
pub open spec fn settings_from(args: Seq<ArgumentValue>) -> Result<SettingsView, SettingsError>
    decreases args.len(),
{
    if args.len() == 0 {
        Ok(default_settings())
    } else {
        match settings_from(args.drop_last()) {
            Ok(s) => apply_argument(s, args.last().name@, args.last().value@),
            Err(e) => Err(e),
        }
    }
}

/// Once a value is refused, the values after it do not change the outcome.
proof fn lemma_refusal_sticks(args: Seq<ArgumentValue>, k: int)
    requires
        0 <= k <= args.len(),
        settings_from(args.take(k)) is Err,
    ensures
        settings_from(args) == settings_from(args.take(k)),
    decreases args.len() - k,
{
    if k < args.len() {
        assert(args.take(k + 1).drop_last() =~= args.take(k));
        lemma_refusal_sticks(args, k + 1);
    } else {
        assert(args.take(k) =~= args);
    }
}

impl RepairFilesConfig {
    /// Builds the settings from the values the command line gave, in order, over the
    /// defaults.
    pub fn from_args(args: Vec<ArgumentValue>) -> (r: Result<RepairFilesConfig, SettingsError>)
        ensures
            r is Ok <==> settings_from(args@) is Ok,
            r matches Ok(c) ==> settings_from(args@) == Ok::<SettingsView, SettingsError>(c@)
                && c.well_formed(),
            r matches Err(e) ==> settings_from(args@) == Err::<SettingsView, SettingsError>(e),
    {
        let mut config = RepairFilesConfig::default();
        let mut i: usize = 0;
        while i < args.len()
            invariant
                i <= args@.len(),
                settings_from(args@.take(i as int)) == Ok::<SettingsView, SettingsError>(config@),
                config.well_formed(),
            decreases args.len() - i,
        {
            proof {
                assert(args@.take(i + 1).drop_last() =~= args@.take(i as int));
            }
            let name = args[i].name.as_str();
            let value = args[i].value.as_str();
            let is_threads = same_chars(name, "--threads");
            let is_verify = same_chars(name, "--verify-threads");
            let is_repair = same_chars(name, "--repair-threads");
            if is_threads || is_verify || is_repair {
                match parse_usize(value) {
                    Some(t) => {
                        if t < 1 {
                            proof {
                                lemma_refusal_sticks(args@, i + 1);
                            }
                            return Err(SettingsError::InvalidThreadCount);
                        }
                        if is_threads {
                            config.verify_threads = t;
                            config.repair_threads = t;
                        } else if is_verify {
                            config.verify_threads = t;
                        } else {
                            config.repair_threads = t;
                        }
                    },
                    None => {
                        proof {
                            lemma_refusal_sticks(args@, i + 1);
                        }
                        return Err(SettingsError::InvalidThreadCount);
                    },
                }
            } else if same_chars(name, "--ignore") {
                config.ignore = split_commas(value);
            } else if same_chars(name, "--verify") {
                config.just_verify = true;
            } else if same_chars(name, "--fast") {
                config.fast = true;
            } else {
                proof {
                    lemma_refusal_sticks(args@, i + 1);
                }
                return Err(SettingsError::UnknownArgument);
            }
            i = i + 1;
        }
        assert(args@.take(i as int) =~= args@);
        Ok(config)
    }
}

} // verus!
