use vstd::prelude::*;
use crate::text::{has_prefix, lemma_split_nonempty, replace, replace_all, split, split_on, starts_with, views};

verus! {

/// The value of a string of decimal digits.
pub open spec fn digits_value(s: Seq<char>) -> nat
    decreases s.len(),
{
    if s.len() == 0 {
        0
    } else {
        digits_value(s.drop_last()) * 10 + ((s.last() as nat) - ('0' as nat)) as nat
    }
}

/// Every character is a decimal digit.
pub open spec fn all_digits(s: Seq<char>) -> bool {
    forall|i: int| 0 <= i < s.len() ==> '0' <= #[trigger] s[i] && s[i] <= '9'
}

/// What `u32::from_str` gives: an optional `+`, then one or more decimal
/// digits whose value fits in 32 bits.
pub open spec fn parse_u32_spec(s: Seq<char>) -> Option<u32> {
    let d = if s.len() > 0 && s[0] == '+' { s.drop_first() } else { s };
    if d.len() > 0 && all_digits(d) && digits_value(d) <= u32::MAX {
        Some(digits_value(d) as u32)
    } else {
        None
    }
}

proof fn lemma_digits_grow(s: Seq<char>, k: int)
    requires
        0 <= k < s.len(),
        '0' <= s[k] <= '9',
    ensures
        digits_value(s.subrange(0, k)) <= digits_value(s.subrange(0, k + 1)),
{
    let t = s.subrange(0, k + 1);
    assert(t.drop_last() =~= s.subrange(0, k));
}

/// The value of a prefix of a digit string is at most the value of the whole.
pub proof fn lemma_digits_monotone(s: Seq<char>, k: int)
    requires
        0 <= k <= s.len(),
        all_digits(s),
    ensures
        digits_value(s.subrange(0, k)) <= digits_value(s),
    decreases s.len() - k,
{
    if k < s.len() {
        lemma_digits_grow(s, k);
        lemma_digits_monotone(s, k + 1);
    } else {
        assert(s.subrange(0, k) =~= s);
    }
}

/// Parses a decimal `u32` as `str::parse::<u32>` does.
pub fn parse_u32(s: &str) -> (r: Option<u32>)
    ensures
        r == parse_u32_spec(s@),
{
    let n = s.unicode_len();
    let mut i: usize = 0;
    if n > 0 && s.get_char(0) == '+' {
        i = 1;
    }
    let start = i;
    let ghost d = if s@.len() > 0 && s@[0] == '+' { s@.drop_first() } else { s@ };
    assert(d =~= s@.subrange(start as int, n as int));
    if start == n {
        return None;
    }
    let mut acc: u64 = 0;
    assert(d.subrange(0, 0) =~= Seq::<char>::empty());
    while i < n
        invariant
            n == s@.len(),
            start <= i <= n,
            d == s@.subrange(start as int, n as int),
            d == (if s@.len() > 0 && s@[0] == '+' { s@.drop_first() } else { s@ }),
            acc == digits_value(d.subrange(0, i - start)),
            acc <= u32::MAX,
            all_digits(d.subrange(0, i - start)),
        decreases n - i,
    {
        let c = s.get_char(i);
        let k = i - start;
        assert(d[k as int] == c);
        if c < '0' || c > '9' {
            assert(!all_digits(d));
            assert(parse_u32_spec(s@) is None);
            return None;
        }
        let ghost t = d.subrange(0, k + 1);
        assert(t.drop_last() =~= d.subrange(0, k as int));
        assert(t.last() == c);
        acc = acc * 10 + ((c as u32) - ('0' as u32)) as u64;
        assert(all_digits(t));
        if acc > u32::MAX as u64 {
            proof {
                assert(acc == digits_value(t));
                if all_digits(d) {
                    lemma_digits_monotone(d, k + 1);
                }
                assert(parse_u32_spec(s@) is None);
            }
            return None;
        }
        i = i + 1;
    }
    assert(d.subrange(0, n - start) =~= d);
    Some(acc as u32)
}

/// The text between the first two double quotes of the first line of `java
/// -version` output.
pub open spec fn quoted_version(output: Seq<char>) -> Option<Seq<char>> {
    let line = split_on(output, '\n')[0];
    let parts = split_on(line, '"');
    if parts.len() >= 3 {
        Some(parts[1])
    } else {
        None
    }
}

/// The major version that a Java version string names: `1.8.0_392` is 8, `17.0.2` is 17.
pub open spec fn version_major(raw: Seq<char>) -> Option<u32> {
    let p = split_on(raw, '.');
    if has_prefix(raw, "1."@) {
        if p.len() >= 2 {
            parse_u32_spec(p[1])
        } else {
            None
        }
    } else {
        parse_u32_spec(p[0])
    }
}

/// The major Java version that `java -version` output reports.
pub open spec fn java_major_of(output: Seq<char>) -> Option<u32> {
    match quoted_version(output) {
        Some(raw) => version_major(raw),
        None => None,
    }
}

/// Reads the major version out of `java -version` output (standard error and
/// standard output, in that order).
pub fn parse_java_major(output: &str) -> (r: Option<u32>)
    ensures
        r == java_major_of(output@),
{
    let lines = split(output, '\n');
    proof {
        lemma_split_nonempty(output@, '\n');
        assert(views(lines@)[0] == lines@[0]@);
    }
    let parts = split(lines[0].as_str(), '"');
    if parts.len() < 3 {
        return None;
    }
    proof {
        assert(views(parts@)[1] == parts@[1]@);
    }
    let raw = parts[1].as_str();
    let nums = split(raw, '.');
    proof {
        lemma_split_nonempty(raw@, '.');
        assert(views(nums@)[0] == nums@[0]@);
        if nums@.len() >= 2 {
            assert(views(nums@)[1] == nums@[1]@);
        }
    }
    if starts_with(raw, "1.") {
        if nums.len() >= 2 {
            parse_u32(nums[1].as_str())
        } else {
            None
        }
    } else {
        parse_u32(nums[0].as_str())
    }
}

/// The Java installation chosen among `(path, major)` candidates for a
/// required major version: the first exact match, else the first newer one.
pub open spec fn java_pick(c: Seq<(String, u32)>, required: u32, i: int) -> bool {
    0 <= i < c.len() && ((c[i].1 == required && forall|j: int| 0 <= j < i ==> c[j].1 != required)
        || (c[i].1 > required && (forall|j: int| 0 <= j < c.len() ==> c[j].1 != required) && forall|j: int|
        0 <= j < i ==> c[j].1 < required))
}

/// Picks among `(path, major)` candidates one that meets a required major
/// version, preferring an exact match; `None` when every candidate is older.
pub fn find_java_by_version(candidates: &Vec<(String, u32)>, required: u32) -> (r: Option<usize>)
    ensures
        match r {
            Some(i) => java_pick(candidates@, required, i as int),
            None => forall|j: int| 0 <= j < candidates@.len() ==> candidates@[j].1 < required,
        },
{
    let mut i: usize = 0;
    while i < candidates.len()
        invariant
            i <= candidates@.len(),
            forall|j: int| 0 <= j < i ==> candidates@[j].1 != required,
        decreases candidates.len() - i,
    {
        if candidates[i].1 == required {
            return Some(i);
        }
        i = i + 1;
    }
    let mut k: usize = 0;
    while k < candidates.len()
        invariant
            k <= candidates@.len(),
            forall|j: int| 0 <= j < candidates@.len() ==> candidates@[j].1 != required,
            forall|j: int| 0 <= j < k ==> candidates@[j].1 < required,
        decreases candidates.len() - k,
    {
        if candidates[k].1 >= required {
            return Some(k);
        }
        k = k + 1;
    }
    None
}

/// A Java installation that was looked at: its path, whether it exists, and
/// the major version it reported, if any.
#[derive(Clone, Debug)]
pub struct JavaProbe {
    pub path: String,
    pub exists: bool,
    pub major: Option<u32>,
}

/// Why no Java could be chosen for a launch.
#[derive(Clone, Copy, Debug, PartialEq, Eq, Structural)]
pub enum JavaError {
    /// No Java installation was found.
    NotFound,
    /// Only an older Java than the version requires was found.
    TooOld { required: u32, found: u32 },
    /// A legacy Forge version needs Java 8 and none was found.
    Java8Required,
}

/// A probed installation that exists.
pub open spec fn usable(p: Option<JavaProbe>) -> bool {
    p is Some && p->0.exists
}

/// The first candidate in the selection order: the instance's own Java, the
/// global setting, then the detected one; each only if it exists.
pub open spec fn first_candidate(
    instance_java: Option<JavaProbe>,
    settings_java: Option<JavaProbe>,
    detected: Option<JavaProbe>,
) -> Option<JavaProbe> {
    if usable(instance_java) {
        instance_java
    } else if usable(settings_java) {
        settings_java
    } else if usable(detected) {
        detected
    } else {
        None
    }
}

/// The Java chosen for a launch. For a version that requires a major
/// version, the first candidate if it reports that major or newer, else an
/// installation found for the requirement, else the launch is refused as too
/// old (a candidate whose version cannot be read is kept as a last resort).
/// For a legacy Forge main class with no requirement, only a Java reporting
/// major 8 is used: the candidate if it does, else the Java 8 that was found,
/// else the launch is refused. Otherwise the first candidate.
pub open spec fn java_choice(
    instance_java: Option<JavaProbe>,
    required: Option<u32>,
    settings_java: Option<JavaProbe>,
    matching: Option<String>,
    detected: Option<JavaProbe>,
    legacy_main_class: bool,
    java8: Option<JavaProbe>,
) -> Result<Seq<char>, JavaError> {
    let c = first_candidate(instance_java, settings_java, detected);
    match required {
        Some(req) => if c is Some && c->0.major is Some && c->0.major->0 >= req {
            Ok(c->0.path@)
        } else if matching is Some {
            Ok(matching->0@)
        } else if c is Some && c->0.major is Some {
            Err(JavaError::TooOld { required: req, found: c->0.major->0 })
        } else if c is Some {
            Ok(c->0.path@)
        } else {
            Err(JavaError::NotFound)
        },
        None => if legacy_main_class {
            if c is Some && c->0.major == Some(8u32) {
                Ok(c->0.path@)
            } else if usable(java8) && java8->0.major == Some(8u32) {
                Ok(java8->0.path@)
            } else {
                Err(JavaError::Java8Required)
            }
        } else if c is Some {
            Ok(c->0.path@)
        } else {
            Err(JavaError::NotFound)
        },
    }
}

/// A legacy Forge launch without a declared requirement runs only on a Java
/// that reports major version 8, and is refused when none is found.
pub proof fn legacy_forge_runs_on_java8(
    instance_java: Option<JavaProbe>,
    settings_java: Option<JavaProbe>,
    matching: Option<String>,
    detected: Option<JavaProbe>,
    java8: Option<JavaProbe>,
)
    ensures
        java_choice(instance_java, None, settings_java, matching, detected, true, java8) matches Ok(p) ==> (
            exists|q: JavaProbe| (Some(q) == instance_java || Some(q) == settings_java || Some(q) == detected || Some(q) == java8)
                && q.exists && q.major == Some(8u32) && q.path@ == p),
        (forall|q: JavaProbe| (Some(q) == instance_java || Some(q) == settings_java || Some(q) == detected || Some(q) == java8)
            ==> q.major != Some(8u32)) ==> java_choice(instance_java, None, settings_java, matching, detected, true, java8)
            == Err::<Seq<char>, JavaError>(JavaError::Java8Required),
{
    let c = first_candidate(instance_java, settings_java, detected);
    if c is Some && c->0.major == Some(8u32) {
        let q = c->0;
        assert(Some(q) == instance_java || Some(q) == settings_java || Some(q) == detected);
    } else if usable(java8) && java8->0.major == Some(8u32) {
        let q = java8->0;
        assert(Some(q) == java8);
    }
}

fn candidate<'a>(
    instance_java: &'a Option<JavaProbe>,
    settings_java: &'a Option<JavaProbe>,
    detected: &'a Option<JavaProbe>,
) -> (r: Option<&'a JavaProbe>)
    ensures
        match r {
            Some(p) => first_candidate(*instance_java, *settings_java, *detected) == Some(*p),
            None => first_candidate(*instance_java, *settings_java, *detected) is None,
        },
{
    if let Some(j) = instance_java {
        if j.exists {
            return Some(j);
        }
    }
    if let Some(j) = settings_java {
        if j.exists {
            return Some(j);
        }
    }
    if let Some(j) = detected {
        if j.exists {
            return Some(j);
        }
    }
    None
}

/// Chooses the Java binary for a launch from the installations that were
/// probed; `matching` is an installation found for the required major
/// version, `java8` one that was found reporting major 8.
pub fn select_java_for_launch(
    instance_java: &Option<JavaProbe>,
    required: Option<u32>,
    settings_java: &Option<JavaProbe>,
    matching: &Option<String>,
    detected: &Option<JavaProbe>,
    legacy_main_class: bool,
    java8: &Option<JavaProbe>,
) -> (r: Result<String, JavaError>)
    ensures
        match r {
            Ok(p) => java_choice(*instance_java, required, *settings_java, *matching, *detected, legacy_main_class, *java8) == Ok::<Seq<char>, JavaError>(p@),
            Err(e) => java_choice(*instance_java, required, *settings_java, *matching, *detected, legacy_main_class, *java8) == Err::<Seq<char>, JavaError>(e),
        },
{
    let c = candidate(instance_java, settings_java, detected);
    match required {
        Some(req) => {
            if let Some(q) = c {
                if let Some(m) = q.major {
                    if m >= req {
                        return Ok(q.path.clone());
                    }
                }
            }
            if let Some(p) = matching {
                return Ok(p.clone());
            }
            match c {
                Some(q) => match q.major {
                    Some(m) => Err(JavaError::TooOld { required: req, found: m }),
                    None => Ok(q.path.clone()),
                },
                None => Err(JavaError::NotFound),
            }
        },
        None => {
            if legacy_main_class {
                if let Some(q) = c {
                    if q.major == Some(8u32) {
                        return Ok(q.path.clone());
                    }
                }
                match java8 {
                    Some(j) => {
                        if j.exists && j.major == Some(8u32) {
                            Ok(j.path.clone())
                        } else {
                            Err(JavaError::Java8Required)
                        }
                    },
                    None => Err(JavaError::Java8Required),
                }
            } else {
                match c {
                    Some(q) => Ok(q.path.clone()),
                    None => Err(JavaError::NotFound),
                }
            }
        },
    }
}

/// The command length from which Windows launches go through an argument file.
pub const LONG_COMMAND_THRESHOLD: u64 = 8000;

/// The length of a launch command: each argument, and the main class, counts
/// its characters plus three (two quotes and a separator).
pub open spec fn args_length(args: Seq<String>) -> int
    decreases args.len(),
{
    if args.len() == 0 {
        0
    } else {
        args_length(args.drop_last()) + args.last()@.len() + 3
    }
}

/// The length of the whole launch command.
pub open spec fn command_length(jvm: Seq<String>, main_class: Seq<char>, game: Seq<String>) -> int {
    args_length(jvm) + main_class.len() + 3 + args_length(game)
}

/// Whether a launch goes through an argument file: on Windows, with a command
/// of at least the threshold length, and a Java that reports major version 9
/// or newer.
pub open spec fn argfile_needed(
    windows: bool,
    jvm: Seq<String>,
    main_class: Seq<char>,
    game: Seq<String>,
    java_major: Option<u32>,
) -> bool {
    windows && command_length(jvm, main_class, game) >= LONG_COMMAND_THRESHOLD && java_major is Some
        && java_major->0 >= 9
}

fn capped_args_length(args: &Vec<String>, start: u64) -> (r: u64)
    requires
        start <= LONG_COMMAND_THRESHOLD,
    ensures
        r <= LONG_COMMAND_THRESHOLD,
        r == if start + args_length(args@) >= LONG_COMMAND_THRESHOLD { LONG_COMMAND_THRESHOLD as int } else { start + args_length(args@) },
{
    let mut acc = start;
    let mut i: usize = 0;
    assert(args@.subrange(0, 0) =~= Seq::<String>::empty());
    while i < args.len()
        invariant
            i <= args@.len(),
            start <= LONG_COMMAND_THRESHOLD,
            acc <= LONG_COMMAND_THRESHOLD,
            acc == if start + args_length(args@.subrange(0, i as int)) >= LONG_COMMAND_THRESHOLD {
                LONG_COMMAND_THRESHOLD as int
            } else {
                start + args_length(args@.subrange(0, i as int))
            },
        decreases args.len() - i,
    {
        proof {
            let t = args@.subrange(0, i + 1);
            assert(t.drop_last() =~= args@.subrange(0, i as int));
            assert(t.last() == args@[i as int]);
            assert(args_length(t) == args_length(args@.subrange(0, i as int)) + args@[i as int]@.len() + 3);
        }
        let l = args[i].as_str().unicode_len();
        if acc >= LONG_COMMAND_THRESHOLD || l as u64 >= LONG_COMMAND_THRESHOLD {
            acc = LONG_COMMAND_THRESHOLD;
        } else {
            acc = acc + l as u64 + 3;
            if acc > LONG_COMMAND_THRESHOLD {
                acc = LONG_COMMAND_THRESHOLD;
            }
        }
        i = i + 1;
    }
    assert(args@.subrange(0, args@.len() as int) =~= args@);
    acc
}

proof fn lemma_args_length_nonneg(args: Seq<String>)
    ensures
        args_length(args) >= 0,
    decreases args.len(),
{
    if args.len() > 0 {
        lemma_args_length_nonneg(args.drop_last());
    }
}

/// Decides whether a launch goes through an argument file.
pub fn needs_argfile(
    windows: bool,
    jvm: &Vec<String>,
    main_class: &str,
    game: &Vec<String>,
    java_major: Option<u32>,
) -> (r: bool)
    ensures
        r == argfile_needed(windows, jvm@, main_class@, game@, java_major),
{
    proof {
        lemma_args_length_nonneg(jvm@);
        lemma_args_length_nonneg(game@);
    }
    let a = capped_args_length(jvm, 0);
    let m = main_class.unicode_len();
    let b = if a >= LONG_COMMAND_THRESHOLD || m as u64 >= LONG_COMMAND_THRESHOLD {
        LONG_COMMAND_THRESHOLD
    } else {
        let x = a + m as u64 + 3;
        if x > LONG_COMMAND_THRESHOLD { LONG_COMMAND_THRESHOLD } else { x }
    };
    let c = capped_args_length(game, b);
    let long = c >= LONG_COMMAND_THRESHOLD;
    match java_major {
        Some(j) => windows && long && j >= 9,
        None => false,
    }
}

/// One line of a Java argument file: the argument in double quotes, with
/// backslashes doubled and double quotes escaped.
pub open spec fn argfile_line(a: Seq<char>) -> Seq<char> {
    "\""@ + replace_all(replace_all(a, "\\"@, "\\\\"@), "\""@, "\\\""@) + "\"\n"@
}

/// The lines of an argument file for a list of arguments.
pub open spec fn argfile_text(args: Seq<Seq<char>>) -> Seq<char>
    decreases args.len(),
{
    if args.len() == 0 {
        Seq::empty()
    } else {
        argfile_text(args.drop_last()) + argfile_line(args.last())
    }
}

/// Writes an argument file: the JVM arguments, the main class and the game
/// arguments, one quoted argument per line.
pub fn build_argfile(jvm: &Vec<String>, main_class: &str, game: &Vec<String>) -> (r: String)
    ensures
        r@ == argfile_text(views(jvm@) + seq![main_class@] + views(game@)),
{
    let mut all: Vec<String> = Vec::new();
    let mut i: usize = 0;
    while i < jvm.len()
        invariant
            i <= jvm@.len(),
            views(all@) == views(jvm@.subrange(0, i as int)),
        decreases jvm.len() - i,
    {
        let ghost before = views(all@);
        let x = jvm[i].clone();
        all.push(x);
        assert(views(all@) =~= before.push(jvm@[i as int]@));
        assert(views(all@) =~= views(jvm@.subrange(0, i + 1)));
        i = i + 1;
    }
    assert(jvm@.subrange(0, jvm@.len() as int) =~= jvm@);
    all.push(main_class.to_owned());
    let ghost head = views(all@);
    assert(head =~= views(jvm@) + seq![main_class@]);
    let mut k: usize = 0;
    while k < game.len()
        invariant
            k <= game@.len(),
            views(all@) == head + views(game@.subrange(0, k as int)),
        decreases game.len() - k,
    {
        let ghost before = views(all@);
        let x = game[k].clone();
        all.push(x);
        assert(views(all@) =~= before.push(game@[k as int]@));
        assert(views(all@) =~= head + views(game@.subrange(0, k + 1)));
        k = k + 1;
    }
    assert(game@.subrange(0, game@.len() as int) =~= game@);
    let mut out = String::new();
    let mut j: usize = 0;
    proof {
        reveal_strlit("\\");
        reveal_strlit("\"");
    }
    assert(views(all@).subrange(0, 0) =~= Seq::<Seq<char>>::empty());
    while j < all.len()
        invariant
            j <= all@.len(),
            out@ == argfile_text(views(all@).subrange(0, j as int)),
        decreases all.len() - j,
    {
        proof {
            reveal_strlit("\\");
            reveal_strlit("\"");
            let t = views(all@).subrange(0, j + 1);
            assert(t.drop_last() =~= views(all@).subrange(0, j as int));
            assert(t.last() == all@[j as int]@);
        }
        let e1 = replace(all[j].as_str(), "\\", "\\\\");
        let e2 = replace(e1.as_str(), "\"", "\\\"");
        out.append("\"");
        out.append(e2.as_str());
        out.append("\"\n");
        assert(out@ =~= argfile_text(views(all@).subrange(0, j + 1)));
        j = j + 1;
    }
    assert(views(all@).subrange(0, all@.len() as int) =~= views(all@));
    out
}

} // verus!
