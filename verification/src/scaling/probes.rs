//! What the host's load and share facilities report, taken apart.

use vstd::prelude::*;

use crate::config::{HyperPodFile, PathStatus, MAX_CPU_SHARES};
use crate::scaling::{Load, ScalingPolicy};
use crate::text::{
    after_white_space, after_word, before_white_space, chars_of, decimal, decimal_string,
    has_word_at, is_white_space, line_spans, lines, parts, strip_front, trim_back, trim_front,
    white_space,
};

verus! {

/// Why a probe or a sink cannot be had.
#[derive(Debug)]
pub enum ProbeError {
    /// The load file cannot be read.
    UnreadableLoad { reason: String },
    /// The load file holds nothing.
    NoLoad,
    /// The process is in no unified control group.
    NoCgroup,
    /// The control group's file is not there.
    MissingFile { path: String },
}

impl ProbeError {
    /// The text that reports the error.
    pub open spec fn text(&self) -> Seq<char> {
        match self {
            ProbeError::UnreadableLoad { reason } => "read /proc/loadavg: "@ + reason@,
            ProbeError::NoLoad => "/proc/loadavg empty"@,
            ProbeError::NoCgroup =>
                "no cgroup-v2 line in /proc/self/cgroup; HyperPod requires cgroup v2 for CPU scaling"@,
            ProbeError::MissingFile { path } => "cgroup file "@ + path@ + " does not exist"@,
        }
    }

    /// Reports the error in words.
    pub fn message(&self) -> (s: String)
        ensures
            s@ == self.text(),
    {
        match self {
            ProbeError::UnreadableLoad { reason } => {
                let mut s = String::from_str("read /proc/loadavg: ");
                s.append(reason.as_str());
                s
            },
            ProbeError::NoLoad => String::from_str("/proc/loadavg empty"),
            ProbeError::NoCgroup => String::from_str(
                "no cgroup-v2 line in /proc/self/cgroup; HyperPod requires cgroup v2 for CPU scaling",
            ),
            ProbeError::MissingFile { path } => {
                let mut s = String::from_str("cgroup file ");
                s.append(path.as_str());
                s.append(" does not exist");
                s
            },
        }
    }
}

/// How many of `ls` begin with `word`.
pub open spec fn count_with(ls: Seq<Seq<char>>, word: Seq<char>) -> nat
    decreases ls.len(),
{
    if ls.len() == 0 {
        0
    } else {
        count_with(ls.drop_last(), word) + if word.is_prefix_of(ls.last()) {
            1nat
        } else {
            0nat
        }
    }
}

/// The first of `ls` that begins with `word`.
pub open spec fn first_with(ls: Seq<Seq<char>>, word: Seq<char>) -> Option<Seq<char>>
    decreases ls.len(),
{
    if ls.len() == 0 {
        None
    } else if word.is_prefix_of(ls[0]) {
        Some(ls[0])
    } else {
        first_with(ls.drop_first(), word)
    }
}

/// The number of processors that the processor list `cpuinfo` names, at least one.
pub open spec fn processors(cpuinfo: Seq<char>) -> nat {
    let n = count_with(lines(cpuinfo), "processor"@);
    if n > 1 {
        n
    } else {
        1
    }
}

/// How many characters stand in `s` before the first white space.
pub open spec fn word_len(s: Seq<char>) -> nat
    decreases s.len(),
{
    if s.len() == 0 || white_space(s[0]) {
        0
    } else {
        1 + word_len(s.drop_first())
    }
}

/// The first word of `s`.
pub open spec fn first_word(s: Seq<char>) -> Option<Seq<char>> {
    let t = trim_front(s);
    if t.len() == 0 {
        None
    } else {
        Some(t.take(word_len(t) as int))
    }
}

/// A probe of the load average: the load counts per processor.
#[derive(Debug, Clone, Copy, PartialEq, Eq, Structural)]
pub struct ProcLoadProbe {
    pub num_cpus: usize,
}

impl ProcLoadProbe {
    /// The probe for a host with the processor list `cpuinfo`, given what reading its load
    /// file came to: without a load to read there is no probe.
    pub fn new(cpuinfo: &str, load_file: Result<String, String>) -> (r: Result<Self, ProbeError>)
        ensures
            match load_file {
                Ok(_) => r matches Ok(p) && p.num_cpus == processors(cpuinfo@),
                Err(reason) => r == Err::<Self, ProbeError>(ProbeError::UnreadableLoad { reason }),
            },
    {
        match load_file {
            Ok(_) => {},
            Err(reason) => return Err(ProbeError::UnreadableLoad { reason }),
        }
        let chars = chars_of(cpuinfo);
        let spans = line_spans(&chars);
        let ghost ls = lines(cpuinfo@);
        let mut n: usize = 0;
        let mut i: usize = 0;
        assert(ls.take(0) =~= Seq::<Seq<char>>::empty());
        while i < spans.len()
            invariant
                i <= spans.len(),
                chars@ == cpuinfo@,
                ls == parts(chars@, spans@),
                n <= i,
                n == count_with(ls.take(i as int), "processor"@),
                forall|k: int|
                    0 <= k < spans@.len() ==> (#[trigger] spans@[k]).0 <= spans@[k].1
                        <= chars@.len(),
            decreases spans.len() - i,
        {
            let (from, to) = spans[i];
            assert(ls.take(i + 1).drop_last() =~= ls.take(i as int));
            assert(ls.take(i + 1).last() == chars@.subrange(from as int, to as int));
            if has_word_at(&chars, from, to, "processor") {
                n = n + 1;
            }
            i = i + 1;
        }
        assert(ls.take(i as int) =~= ls);
        Ok(
            ProcLoadProbe {
                num_cpus: if n > 1 {
                    n
                } else {
                    1
                },
            },
        )
    }
}

/// Gives the field of the load average `text` that holds the load of the last minute.
pub fn load_field(text: &str) -> (r: Result<String, ProbeError>)
    ensures
        match r {
            Ok(field) => first_word(text@) == Some(field@),
            Err(e) => e is NoLoad && first_word(text@) is None,
        },
{
    let chars = chars_of(text);
    let from: usize = after_white_space(&chars, 0, chars.len());
    let ghost rest = chars@.subrange(from as int, chars@.len() as int);
    assert(chars@.subrange(0, chars@.len() as int) =~= text@);
    if from == chars.len() {
        return Err(ProbeError::NoLoad);
    }
    let mut to: usize = from;
    while to < chars.len() && !is_white_space(chars[to])
        invariant
            from <= to <= chars.len(),
            rest == chars@.subrange(from as int, chars@.len() as int),
            word_len(rest) == (to - from) + word_len(
                chars@.subrange(to as int, chars@.len() as int),
            ),
        decreases chars.len() - to,
    {
        assert(chars@.subrange(to as int, chars@.len() as int).drop_first() =~= chars@.subrange(
            to + 1,
            chars@.len() as int,
        ));
        to = to + 1;
    }
    assert(rest.take(to - from) =~= chars@.subrange(from as int, to as int));
    Ok(String::from_str(text.substring_char(from, to)))
}

/// The path of a control group within the hierarchy, from the line that tells it.
pub open spec fn cgroup_of_line(line: Seq<char>) -> Seq<char> {
    strip_front(trim_back(trim_front(strip_front(line, "0::"@))), "/"@)
}

/// The file that holds the CPU weight of the control group `rel`.
pub open spec fn weight_file(rel: Seq<char>) -> Seq<char> {
    if rel.len() == 0 || rel.last() == '/' {
        "/sys/fs/cgroup/"@ + rel + "cpu.weight"@
    } else {
        "/sys/fs/cgroup/"@ + rel + "/"@ + "cpu.weight"@
    }
}

/// The weight file of the unified control group in the list `membership`.
pub open spec fn weight_file_of(membership: Seq<char>) -> Option<Seq<char>> {
    match first_with(lines(membership), "0::"@) {
        None => None,
        Some(line) => Some(weight_file(cgroup_of_line(line))),
    }
}

/// Finds the weight file of the process in the list of its control groups.
pub fn cgroup_weight_path(membership: &str) -> (r: Result<String, ProbeError>)
    ensures
        match r {
            Ok(path) => weight_file_of(membership@) == Some(path@),
            Err(e) => e is NoCgroup && weight_file_of(membership@) is None,
        },
{
    let chars = chars_of(membership);
    let spans = line_spans(&chars);
    let ghost ls = lines(membership@);
    let mut i: usize = 0;
    assert(ls.skip(0) =~= ls);
    while i < spans.len()
        invariant
            i <= spans.len(),
            chars@ == membership@,
            ls == parts(chars@, spans@),
            ls == lines(membership@),
            first_with(ls.skip(i as int), "0::"@) == first_with(ls, "0::"@),
            forall|k: int|
                0 <= k < spans@.len() ==> (#[trigger] spans@[k]).0 <= spans@[k].1 <= chars@.len(),
        decreases spans.len() - i,
    {
        let (from, to) = spans[i];
        assert(ls.skip(i as int)[0] == chars@.subrange(from as int, to as int));
        assert(ls.skip(i as int).drop_first() =~= ls.skip(i + 1));
        if has_word_at(&chars, from, to, "0::") {
            return Ok(weight_path_of_line(membership, &chars, from, to));
        }
        i = i + 1;
    }
    Err(ProbeError::NoCgroup)
}

/// The weight file for the line of `membership` from `from` to `to`.
fn weight_path_of_line(membership: &str, chars: &Vec<char>, from: usize, to: usize) -> (path:
    String)
    requires
        chars@ == membership@,
        from <= to <= chars@.len(),
    ensures
        path@ == weight_file(cgroup_of_line(chars@.subrange(from as int, to as int))),
{
    proof {
        reveal_strlit("0::");
        reveal_strlit("/");
    }
    let a: usize = after_word(chars, from, to, "0::");
    let a: usize = after_white_space(chars, a, to);
    let b: usize = before_white_space(chars, a, to);
    let a: usize = after_word(chars, a, b, "/");
    let rel = membership.substring_char(a, b);
    let mut path = String::from_str("/sys/fs/cgroup/");
    path.append(rel);
    if a < b && chars[b - 1] != '/' {
        path.append("/");
    }
    path.append("cpu.weight");
    path
}

/// `shares` brought into the range of CPU share values.
pub open spec fn clamped(shares: u64) -> u64 {
    if shares < 1 {
        1
    } else if shares > MAX_CPU_SHARES {
        MAX_CPU_SHARES
    } else {
        shares
    }
}

/// Brings `shares` into the range of CPU share values.
pub fn clamp_shares(shares: u64) -> (v: u64)
    ensures
        v == clamped(shares),
{
    if shares < 1 {
        1
    } else if shares > MAX_CPU_SHARES {
        MAX_CPU_SHARES
    } else {
        shares
    }
}

/// A sink that writes CPU weights to the file of a control group.
#[derive(Debug)]
pub struct CgroupShareSink {
    pub path: String,
}

impl CgroupShareSink {
    /// The sink for the file at `path`, of which the host says what it is.
    pub fn new(path: String, status: PathStatus) -> (r: Result<Self, ProbeError>)
        ensures
            match r {
                Ok(sink) => status is RegularFile && sink.path == path,
                Err(e) => status !is RegularFile && e == (ProbeError::MissingFile { path }),
            },
    {
        match status {
            PathStatus::RegularFile => Ok(CgroupShareSink { path }),
            _ => Err(ProbeError::MissingFile { path }),
        }
    }

    /// What to write to the file to put `shares` into force.
    pub fn weight_text(&self, shares: u64) -> (s: String)
        ensures
            s@ == decimal(clamped(shares) as nat),
    {
        decimal_string(clamp_shares(shares))
    }
}

/// Finds the sink for the process, given the list of its control groups and what the host
/// has at the weight file that the list leads to.
pub fn discover_cgroup_share_sink(membership: &str, status: PathStatus) -> (r: Result<
    CgroupShareSink,
    ProbeError,
>)
    ensures
        match weight_file_of(membership@) {
            None => r matches Err(e) && e is NoCgroup,
            Some(path) => if status is RegularFile {
                r matches Ok(sink) && sink.path@ == path
            } else {
                r matches Err(ProbeError::MissingFile { path: p }) && p@ == path
            },
        },
{
    match cgroup_weight_path(membership) {
        Err(e) => Err(e),
        Ok(path) => CgroupShareSink::new(path, status),
    }
}

/// The CPU rate, in hundredths of a percent, that stands for `shares`.
pub fn cpu_rate(shares: u64) -> (rate: u32)
    ensures
        rate == clamped(shares),
{
    clamp_shares(shares) as u32
}

/// A point in time or a span of time, in two halves.
#[derive(Debug, Clone, Copy, PartialEq, Eq, Structural)]
pub struct FileTime {
    pub low: u32,
    pub high: u32,
}

impl FileTime {
    /// The ticks that the two halves make up.
    pub open spec fn ticks(self) -> int {
        self.high * 0x1_0000_0000 + self.low
    }
}

/// The ticks that the two halves of `ft` make up.
pub fn ft_to_u64(ft: FileTime) -> (t: u64)
    ensures
        t == ft.ticks(),
{
    (ft.high as u64) * 0x1_0000_0000 + (ft.low as u64)
}

/// Ticks that the host's processors have been idle, and in all.
#[derive(Debug, Clone, Copy, PartialEq, Eq, Structural)]
pub struct CpuTimes {
    pub idle: u64,
    pub total: u64,
}

/// Makes up the times from what the host reports. Kernel time contains idle time.
pub fn snapshot(idle: FileTime, kernel: FileTime, user: FileTime) -> (t: CpuTimes)
    ensures
        t.idle == idle.ticks(),
        t.total == (kernel.ticks() + user.ticks()) % 0x1_0000_0000_0000_0000,
{
    CpuTimes { idle: ft_to_u64(idle), total: ft_to_u64(kernel).wrapping_add(ft_to_u64(user)) }
}

/// A probe of the processor times: the load is the busy part of the time since the last
/// look.
#[derive(Debug, Clone, Copy, PartialEq, Eq, Structural)]
pub struct GetSystemTimesProbe {
    pub last: CpuTimes,
}

/// How far `now` is past `then`, or zero where it is not.
pub open spec fn gap(now: u64, then: u64) -> u64 {
    if now >= then {
        (now - then) as u64
    } else {
        0
    }
}

impl GetSystemTimesProbe {
    /// The probe that has seen the times `first`.
    pub fn new(first: CpuTimes) -> (p: Self)
        ensures
            p.last == first,
    {
        GetSystemTimesProbe { last: first }
    }

    /// The times since the last look, as of `now`. Without any, there was no load.
    pub fn advance(&mut self, now: CpuTimes) -> (since: Option<CpuTimes>)
        ensures
            final(self).last == now,
            since is None <==> gap(now.total, old(self).last.total) == 0,
            since matches Some(t) ==> t == (CpuTimes {
                idle: gap(now.idle, old(self).last.idle),
                total: gap(now.total, old(self).last.total),
            }),
    {
        let idle: u64 = now.idle.saturating_sub(self.last.idle);
        let total: u64 = now.total.saturating_sub(self.last.total);
        self.last = now;
        if total == 0 {
            None
        } else {
            Some(CpuTimes { idle, total })
        }
    }
}

/// Whatever shares are asked for, the value put into force is a valid one, and a valid
/// one is put into force as it is.
pub proof fn law_clamped_shares_are_valid(shares: u64)
    ensures
        1 <= clamped(shares) <= MAX_CPU_SHARES,
        1 <= shares <= MAX_CPU_SHARES ==> clamped(shares) == shares,
{
}

/// The shares that the monitor of a valid description sets are put into force as they
/// are.
pub proof fn law_valid_descriptions_need_no_clamp(
    cfg: &HyperPodFile,
    kernel: PathStatus,
    rootfs: PathStatus,
    current: u64,
    load: Load,
)
    requires
        cfg.check(kernel, rootfs) is Ok,
        cfg.limits.min_cpu_shares <= current <= cfg.limits.max_cpu_shares,
    ensures
        ({
            let next = ScalingPolicy::of_limits(cfg.limits).next(current, load) as u64;
            clamped(next) == next
        }),
{
    crate::scaling::law_shares_stay_in_range(
        ScalingPolicy::of_limits(cfg.limits),
        current,
        load,
    );
}

/// A host always counts as having a processor.
pub proof fn law_at_least_one_processor(cpuinfo: Seq<char>)
    ensures
        processors(cpuinfo) >= 1,
{
}

/// A process in the unified control group `rel` has its weight file in that group's
/// directory.
pub proof fn law_unified_group_is_found(rel: Seq<char>)
    requires
        rel.len() > 0,
        forall|i: int| 0 <= i < rel.len() ==> rel[i] != '\n',
        rel[0] != '/',
        rel.last() != '/',
        !white_space(rel.last()),
    ensures
        weight_file_of("0::/"@ + rel + "\n"@) == Some(
            "/sys/fs/cgroup/"@ + rel + "/"@ + "cpu.weight"@,
        ),
{
    reveal_strlit("0::/");
    reveal_strlit("0::");
    reveal_strlit("/");
    reveal_strlit("\n");
    let line = "0::/"@ + rel;
    let text = line + "\n"@;
    crate::text::lemma_find_char(text, '\n', line.len() as int);
    assert(text.take(line.len() as int) =~= line);
    assert(text.skip(line.len() + 1int) =~= Seq::<char>::empty());
    assert(white_space('\r') && !white_space('/'));
    assert(line.last() == rel.last());
    assert(lines(Seq::<char>::empty()) =~= Seq::<Seq<char>>::empty());
    assert(lines(text) =~= seq![line]);
    assert(line.subrange(0, 3) =~= "0::"@);
    let after = seq!['/'] + rel;
    assert(line.skip(3) =~= after);
    assert(!"0::"@.is_prefix_of(after)) by {
        if after.len() >= 3 {
            assert(after.subrange(0, 3)[0] == '/');
        }
    }
    assert(strip_front(after, "0::"@) == after);
    assert(after.subrange(0, 1) =~= "/"@);
    assert(after.skip(1) =~= rel);
    assert(!"/"@.is_prefix_of(rel)) by {
        assert(rel.subrange(0, 1)[0] == rel[0]);
    }
    assert(strip_front(rel, "/"@) == rel);
}

/// Looks that follow each other at times that do not go back add up to one look over the
/// whole time.
pub proof fn law_looks_add_up(first: CpuTimes, second: CpuTimes, third: CpuTimes)
    requires
        first.total <= second.total <= third.total,
        first.idle <= second.idle <= third.idle,
    ensures
        gap(second.total, first.total) + gap(third.total, second.total) == gap(
            third.total,
            first.total,
        ),
        gap(second.idle, first.idle) + gap(third.idle, second.idle) == gap(third.idle, first.idle),
{
}

/// The lines that are counted are the ones that begin with the word, each once.
pub proof fn law_counting(ls: Seq<Seq<char>>, word: Seq<char>)
    ensures
        count_with(ls, word) == ls.filter(|l: Seq<char>| word.is_prefix_of(l)).len(),
    decreases ls.len(),
{
    reveal(Seq::filter);
    if ls.len() > 0 {
        law_counting(ls.drop_last(), word);
    }
}

/// A host has as many processors as its processor list has lines that begin with
/// `processor`, and one where it has none.
pub proof fn law_processors_are_counted(cpuinfo: Seq<char>)
    ensures
        ({
            let named = lines(cpuinfo).filter(|l: Seq<char>| "processor"@.is_prefix_of(l)).len();
            &&& named > 0 ==> processors(cpuinfo) == named
            &&& named == 0 ==> processors(cpuinfo) == 1
        }),
{
    law_counting(lines(cpuinfo), "processor"@);
}

/// The first line with a word begins with it, and no line before it does. Where there is
/// none, no line begins with the word.
pub proof fn law_first_with(ls: Seq<Seq<char>>, word: Seq<char>)
    ensures
        first_with(ls, word) matches Some(l) ==> exists|i: int|
            0 <= i < ls.len() && l == #[trigger] ls[i] && word.is_prefix_of(ls[i]) && forall|j: int|
                0 <= j < i ==> !word.is_prefix_of(#[trigger] ls[j]),
        first_with(ls, word) is None ==> forall|i: int|
            0 <= i < ls.len() ==> !word.is_prefix_of(#[trigger] ls[i]),
    decreases ls.len(),
{
    if ls.len() > 0 && !word.is_prefix_of(ls[0]) {
        let r = ls.drop_first();
        law_first_with(r, word);
        if let Some(l) = first_with(ls, word) {
            let k = choose|i: int|
                0 <= i < r.len() && l == #[trigger] r[i] && word.is_prefix_of(r[i])
                    && forall|j: int| 0 <= j < i ==> !word.is_prefix_of(#[trigger] r[j]);
            assert(ls[k + 1] == r[k]);
            assert forall|j: int| 0 <= j < k + 1 implies !word.is_prefix_of(#[trigger] ls[j]) by {
                if j > 0 {
                    assert(r[j - 1] == ls[j]);
                }
            }
        } else {
            assert forall|i: int| 0 <= i < ls.len() implies !word.is_prefix_of(
                #[trigger] ls[i],
            ) by {
                if i > 0 {
                    assert(r[i - 1] == ls[i]);
                }
            }
        }
    } else if ls.len() > 0 {
        assert(ls[0] == first_with(ls, word)->Some_0);
    }
}

/// The first word of a text is what stands between the white space at its front and the
/// next white space, or its end. A text has none only where all of it is white space.
pub proof fn law_first_word(s: Seq<char>)
    ensures
        first_word(s) is None <==> forall|i: int| 0 <= i < s.len() ==> white_space(#[trigger] s[i]),
        first_word(s) matches Some(w) ==> ({
            let a = s.len() - trim_front(s).len();
            let b = a + w.len();
            &&& 0 <= a < b <= s.len()
            &&& w == s.subrange(a, b)
            &&& forall|i: int| 0 <= i < a ==> white_space(#[trigger] s[i])
            &&& forall|i: int| a <= i < b ==> !white_space(#[trigger] s[i])
            &&& b < s.len() ==> white_space(s[b])
        }),
{
    crate::text::law_trimming(s);
    let t = trim_front(s);
    lemma_word_len(t);
    let a = s.len() - t.len();
    if t.len() > 0 {
        assert(t[0] == s[a]);
        assert(!white_space(s[a]));
        let b = a + word_len(t);
        assert(t.take(word_len(t) as int) =~= s.subrange(a, b));
        assert forall|i: int| a <= i < b implies !white_space(#[trigger] s[i]) by {
            assert(t[i - a] == s[i]);
        }
        if b < s.len() {
            assert(t[b - a] == s[b]);
        }
    }
}

proof fn lemma_word_len(s: Seq<char>)
    ensures
        word_len(s) <= s.len(),
        forall|i: int| 0 <= i < word_len(s) ==> !white_space(#[trigger] s[i]),
        word_len(s) < s.len() ==> white_space(s[word_len(s) as int]),
        s.len() > 0 && !white_space(s[0]) ==> word_len(s) > 0,
    decreases s.len(),
{
    if s.len() > 0 && !white_space(s[0]) {
        let r = s.drop_first();
        lemma_word_len(r);
        assert forall|i: int| 0 <= i < word_len(s) implies !white_space(#[trigger] s[i]) by {
            if i > 0 {
                assert(r[i - 1] == s[i]);
            }
        }
        if word_len(s) < s.len() {
            assert(r[word_len(r) as int] == s[word_len(s) as int]);
        }
    }
}

/// The weight file lies in the group's directory below `/sys/fs/cgroup`.
pub proof fn law_weight_files(rel: Seq<char>)
    ensures
        weight_file(Seq::empty()) == "/sys/fs/cgroup/cpu.weight"@,
        rel.len() > 0 && rel.last() != '/' ==> weight_file(rel) == "/sys/fs/cgroup/"@ + rel
            + "/cpu.weight"@,
        rel.len() > 0 && rel.last() == '/' ==> weight_file(rel) == "/sys/fs/cgroup"@ + (seq!['/']
            + rel) + "cpu.weight"@,
{
    reveal_strlit("/sys/fs/cgroup/cpu.weight");
    reveal_strlit("/sys/fs/cgroup/");
    reveal_strlit("/sys/fs/cgroup");
    reveal_strlit("cpu.weight");
    reveal_strlit("/cpu.weight");
    reveal_strlit("/");
    assert("/sys/fs/cgroup/"@ + Seq::<char>::empty() + "cpu.weight"@
        =~= "/sys/fs/cgroup/cpu.weight"@);
    assert("/sys/fs/cgroup/"@ + rel + "/"@ + "cpu.weight"@ =~= "/sys/fs/cgroup/"@ + rel
        + "/cpu.weight"@);
    assert("/sys/fs/cgroup/"@ + rel + "cpu.weight"@ =~= "/sys/fs/cgroup"@ + (seq!['/'] + rel)
        + "cpu.weight"@);
}

/// The line `0::`, then `slashes` and `rel`, with white space around them, tells the group
/// `rel`.
pub proof fn law_group_of_line(
    pad: Seq<char>,
    slashes: Seq<char>,
    rel: Seq<char>,
    tail: Seq<char>,
)
    requires
        forall|i: int| 0 <= i < pad.len() ==> white_space(#[trigger] pad[i]),
        forall|i: int| 0 <= i < tail.len() ==> white_space(#[trigger] tail[i]),
        slashes.len() > 0,
        forall|i: int| 0 <= i < slashes.len() ==> (#[trigger] slashes[i]) == '/',
        rel.len() > 0 ==> rel[0] != '/' && !white_space(rel.last()),
    ensures
        cgroup_of_line("0::"@ + (pad + slashes + rel + tail)) == rel,
{
    reveal_strlit("0::");
    reveal_strlit("/");
    let rest = pad + slashes + rel + tail;
    assert(!"0::"@.is_prefix_of(rest)) by {
        if rest.len() >= 3 {
            assert(rest.subrange(0, 3)[0] == rest[0]);
            if pad.len() > 0 {
                assert(rest[0] == pad[0]);
            } else {
                assert(rest[0] == slashes[0]);
            }
        }
    }
    crate::text::law_stripping(rest, "0::"@);
    let body = slashes + rel;
    let front = body + tail;
    assert(rest =~= pad + front);
    assert(!white_space('/'));
    lemma_trim_front_of(pad, front);
    lemma_trim_back_of(body, tail);
    lemma_strip_slashes(slashes, rel);
}

proof fn lemma_trim_front_of(pad: Seq<char>, s: Seq<char>)
    requires
        forall|i: int| 0 <= i < pad.len() ==> white_space(#[trigger] pad[i]),
        s.len() > 0,
        !white_space(s[0]),
    ensures
        trim_front(pad + s) == s,
    decreases pad.len(),
{
    if pad.len() > 0 {
        assert((pad + s)[0] == pad[0]);
        assert((pad + s).drop_first() =~= pad.drop_first() + s);
        lemma_trim_front_of(pad.drop_first(), s);
    } else {
        assert(pad + s =~= s);
    }
}

proof fn lemma_trim_back_of(s: Seq<char>, tail: Seq<char>)
    requires
        forall|i: int| 0 <= i < tail.len() ==> white_space(#[trigger] tail[i]),
        s.len() > 0,
        !white_space(s.last()),
    ensures
        trim_back(s + tail) == s,
    decreases tail.len(),
{
    if tail.len() > 0 {
        assert((s + tail).last() == tail.last());
        assert((s + tail).drop_last() =~= s + tail.drop_last());
        lemma_trim_back_of(s, tail.drop_last());
    } else {
        assert(s + tail =~= s);
    }
}

proof fn lemma_strip_slashes(slashes: Seq<char>, rel: Seq<char>)
    requires
        forall|i: int| 0 <= i < slashes.len() ==> (#[trigger] slashes[i]) == '/',
        rel.len() > 0 ==> rel[0] != '/',
    ensures
        strip_front(slashes + rel, "/"@) == rel,
    decreases slashes.len(),
{
    reveal_strlit("/");
    if slashes.len() > 0 {
        let less = slashes.drop_first();
        assert(slashes + rel =~= "/"@ + (less + rel));
        crate::text::law_stripping(less + rel, "/"@);
        lemma_strip_slashes(less, rel);
    } else {
        assert(slashes + rel =~= rel);
        if rel.len() > 0 {
            assert(rel.subrange(0, 1)[0] == rel[0]);
        }
        assert(!"/"@.is_prefix_of(rel));
        crate::text::law_stripping(rel, "/"@);
    }
}

/// The group is told by the first line that begins with `0::`, whatever lines stand around
/// it; without such a line there is none.
pub proof fn law_membership(membership: Seq<char>)
    ensures
        weight_file_of(membership) is None <==> forall|i: int|
            0 <= i < lines(membership).len() ==> !"0::"@.is_prefix_of(
                #[trigger] lines(membership)[i],
            ),
        weight_file_of(membership) matches Some(path) ==> exists|i: int|
            0 <= i < lines(membership).len() && path == weight_file(
                cgroup_of_line(#[trigger] lines(membership)[i]),
            ) && "0::"@.is_prefix_of(lines(membership)[i]) && forall|j: int|
                0 <= j < i ==> !"0::"@.is_prefix_of(#[trigger] lines(membership)[j]),
{
    law_first_with(lines(membership), "0::"@);
}

/// Shares out of range are brought to the nearer end of it.
pub proof fn law_clamped_to_the_nearer_end(shares: u64)
    ensures
        shares == 0 ==> clamped(shares) == 1,
        1 <= shares <= 10_000 ==> clamped(shares) == shares,
        shares > 10_000 ==> clamped(shares) == 10_000,
{
}

/// The halves of a time can be told apart in it again.
pub proof fn law_file_time_halves(ft: FileTime)
    ensures
        ft.ticks() % 0x1_0000_0000 == ft.low,
        ft.ticks() / 0x1_0000_0000 == ft.high,
{
}

/// A gap is what is to be added to the earlier time to get the later one.
pub proof fn law_gaps(now: u64, then: u64)
    ensures
        now >= then ==> then + gap(now, then) == now,
        now <= then ==> gap(now, then) == 0,
{
}

/// A message tells the reason or the path that it was given.
pub proof fn law_messages(told: String)
    ensures
        (ProbeError::UnreadableLoad { reason: told }).text() == "read /proc/loadavg: "@ + told@,
        (ProbeError::MissingFile { path: told }).text() == "cgroup file "@ + told@
            + " does not exist"@,
{
}

} // verus!
