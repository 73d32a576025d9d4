//! Runtime readiness: whether the serving corpus and the calibration
//! profiles let the service answer, with the reasons when they do not.

use vstd::prelude::*;
use crate::contracts::Timeframe;
use crate::corpus::{corpus_error_text, CorpusAuditReport, CorpusError, CorpusFileReport};
use crate::historical::{utc_midnight_ns, utc_midnight_of, DAY_NS};
use crate::service::{profile_file_name, spec_profile_file_name};
use crate::text::{concat, push_char, push_text, text_eq};

verus! {

/// Errors make the service unready; warnings are reported only.
#[derive(Debug, Clone)]
pub struct RuntimeReadiness {
    pub errors: Vec<String>,
    pub warnings: Vec<String>,
}

/// The texts of a list of strings.
pub open spec fn texts(v: Seq<String>) -> Seq<Seq<char>> {
    v.map_values(|s: String| s@)
}

impl RuntimeReadiness {
    /// No errors and no warnings yet.
    pub fn new() -> (r: Self)
        ensures
            r.errors@.len() == 0,
            r.warnings@.len() == 0,
    {
        RuntimeReadiness { errors: Vec::new(), warnings: Vec::new() }
    }

    /// Ready exactly when nothing is in error.
    pub fn is_ready(&self) -> (r: bool)
        ensures
            r == (self.errors@.len() == 0),
    {
        self.errors.len() == 0
    }
}

/// The readiness probe's answer: HTTP status and body status.
pub fn health_status(readiness: &RuntimeReadiness) -> (r: (u16, &'static str))
    ensures
        readiness.errors@.len() == 0 ==> r.0 == 200 && r.1@ == "READY"@,
        readiness.errors@.len() != 0 ==> r.0 == 503 && r.1@ == "NOT_READY"@,
{
    if readiness.is_ready() {
        (200, "READY")
    } else {
        (503, "NOT_READY")
    }
}

/// The decimal digit for `d < 10`.
pub open spec fn digit_char(d: nat) -> char {
    (d + 48) as char
}

/// Decimal digits of a natural number, most significant first.
pub open spec fn decimal(n: nat) -> Seq<char>
    decreases n,
{
    if n < 10 {
        seq![digit_char(n)]
    } else {
        decimal(n / 10).push(digit_char(n % 10))
    }
}

fn push_decimal(out: &mut String, n: usize)
    ensures
        final(out)@ == old(out)@ + decimal(n as nat),
    decreases n,
{
    let ghost start = out@;
    if n >= 10 {
        push_decimal(out, n / 10);
    }
    let d = (n % 10) as u8;
    push_char(out, (d + 48) as char);
    proof {
        if n >= 10 {
            assert(out@ =~= start + decimal(n as nat));
        } else {
            assert(out@ =~= start + decimal(n as nat));
        }
    }
}

/// The decimal text of a count.
pub fn decimal_text(n: usize) -> (r: String)
    ensures
        r@ == decimal(n as nat),
{
    let mut out = String::new();
    push_decimal(&mut out, n);
    assert(out@ =~= decimal(n as nat));
    out
}

/// The end, exclusive, of the day a report's last date names.
pub open spec fn end_exclusive(date: Seq<char>) -> Option<i64> {
    match utc_midnight_of(date, "%Y-%m-%d"@) {
        Some(t) => if t + DAY_NS <= i64::MAX {
            Some((t + DAY_NS) as i64)
        } else {
            None
        },
        None => None,
    }
}

/// The instant at which the last day of a corpus ends.
pub fn report_end_exclusive_ns(end: &str) -> (r: Option<i64>)
    ensures
        r == end_exclusive(end@),
{
    match utc_midnight_ns(end, "%Y-%m-%d") {
        Some(t) => t.checked_add(DAY_NS),
        None => None,
    }
}

/// Declares std's `SystemTime`, so that a clock reading can be carried.
#[verifier::external_type_specification]
#[verifier::external_body]
pub struct ExSystemTime(std::time::SystemTime);

/// Trusted: `std::time::SystemTime::now`. Nothing is stated of the reading,
/// which depends on the clock.
#[verifier::external_body]
fn system_time_now() -> (r: std::time::SystemTime) {
    std::time::SystemTime::now()
}

/// Trusted: `SystemTime::duration_since` with `UNIX_EPOCH`, which fails,
/// here `None`, when the reading is earlier than the epoch. Nothing is
/// stated of the duration, which depends on the clock.
#[verifier::external_body]
fn since_unix_epoch(t: &std::time::SystemTime) -> (r: Option<std::time::Duration>) {
    t.duration_since(std::time::UNIX_EPOCH).ok()
}

/// Trusted: `Duration::as_nanos`, the whole duration in nanoseconds.
/// Nothing is stated of it, since a `Duration` is opaque here.
#[verifier::external_body]
fn duration_nanos(d: &std::time::Duration) -> (r: u128) {
    d.as_nanos()
}

/// The current time in nanoseconds since the Unix epoch; nothing when the
/// clock reads earlier than the epoch or the count does not fit an `i64`.
fn utc_now_ns() -> (r: Option<i64>) {
    let now = system_time_now();
    match since_unix_epoch(&now) {
        Some(elapsed) => {
            let nanos = duration_nanos(&elapsed);
            if nanos <= 9_223_372_036_854_775_807u128 {
                Some(nanos as i64)
            } else {
                None
            }
        },
        None => None,
    }
}

pub open spec fn audit_failure_message(e: CorpusError) -> Seq<char> {
    "runtime corpus audit failed: "@ + corpus_error_text(e)
}

pub open spec fn rejected_corpus_message(file: Seq<char>) -> Seq<char> {
    "runtime corpus "@ + file + " failed pinned structure/hash validation"@
}

pub open spec fn cadence_warning(file: Seq<char>, anomalies: nat) -> Seq<char> {
    "runtime corpus "@ + file + " has "@ + decimal(anomalies)
        + " cadence anomalies; publication remains gated"@
}

pub open spec fn stale_warning(file: Seq<char>) -> Seq<char> {
    "runtime corpus "@ + file + " is historical; native responses are marked STALE_DATA"@
}

pub open spec fn directory_message(error: Seq<char>) -> Seq<char> {
    "calibration directory is unavailable: "@ + error
}

pub open spec fn identity_message(name: Seq<char>, expected: Seq<char>) -> Seq<char> {
    "profile "@ + name + " identity requires filename "@ + expected
}

pub open spec fn no_corpus_message(name: Seq<char>, id: Seq<char>) -> Seq<char> {
    "profile "@ + name + " has no serving corpus for "@ + id
}

pub open spec fn coverage_message(name: Seq<char>) -> Seq<char> {
    "profile "@ + name + " extends beyond serving-corpus coverage"@
}

pub open spec fn gated_message(name: Seq<char>, anomalies: nat) -> Seq<char> {
    "publication-eligible profile "@ + name + " uses a corpus with "@ + decimal(anomalies)
        + " cadence anomalies"@
}

pub open spec fn uncovered_message(file: Seq<char>) -> Seq<char> {
    "serving corpus "@ + file + " has no validated D1 resolution profile"@
}

/// The errors that one corpus file raises.
pub open spec fn file_errors(f: CorpusFileReport) -> Seq<Seq<char>> {
    if !f.accepted {
        seq![rejected_corpus_message(f.file@)]
    } else {
        Seq::empty()
    }
}

/// The warnings that one corpus file raises at time `now`, given the end of
/// its last day.
pub open spec fn warnings_at(f: CorpusFileReport, end: Option<i64>, now: i64) -> Seq<Seq<char>> {
    let cadence = if f.cadence_anomalies > 0 {
        seq![cadence_warning(f.file@, f.cadence_anomalies as nat)]
    } else {
        Seq::empty()
    };
    let stale = match end {
        Some(end) => if end < now {
            seq![stale_warning(f.file@)]
        } else {
            Seq::empty()
        },
        None => Seq::empty(),
    };
    cadence + stale
}

/// The warnings that one corpus file raises at time `now`.
pub open spec fn file_warnings(f: CorpusFileReport, now: i64) -> Seq<Seq<char>> {
    warnings_at(f, end_exclusive(f.actual_end@), now)
}

/// The errors of the corpus files, in order.
pub open spec fn corpus_errors(files: Seq<CorpusFileReport>) -> Seq<Seq<char>>
    decreases files.len(),
{
    if files.len() == 0 {
        Seq::empty()
    } else {
        corpus_errors(files.drop_last()) + file_errors(files.last())
    }
}

/// The warnings of the corpus files, in order.
pub open spec fn corpus_warnings(files: Seq<CorpusFileReport>, now: i64) -> Seq<Seq<char>>
    decreases files.len(),
{
    if files.len() == 0 {
        Seq::empty()
    } else {
        corpus_warnings(files.drop_last(), now) + file_warnings(files.last(), now)
    }
}

/// What is known of a resolution profile that was read, parsed and
/// validated.
#[derive(Debug, Clone)]
pub struct ProfileFacts {
    pub file_name: String,
    pub instrument_id: String,
    pub timeframe: Timeframe,
    pub calibration_end_ns: i64,
    pub publication_eligible: bool,
}

/// A profile's facts, or the error met when reading, parsing or validating
/// it.
pub type ProfileEntry = Result<ProfileFacts, String>;

/// Whether a file name is that of a resolution profile.
pub open spec fn is_profile_name(name: Seq<char>) -> bool {
    let suffix = ".resolution.json"@;
    name.len() >= suffix.len() && name.subrange(name.len() - suffix.len(), name.len() as int)
        == suffix
}

/// Whether a file name ends in `.resolution.json`.
pub fn is_profile_file_name(name: &str) -> (r: bool)
    ensures
        r == is_profile_name(name@),
{
    let suffix = ".resolution.json";
    proof {
        reveal_strlit(".resolution.json");
    }
    let n = name.unicode_len();
    let m = suffix.unicode_len();
    if n < m {
        return false;
    }
    let mut i: usize = 0;
    while i < m
        invariant
            n == name@.len(),
            m == suffix@.len(),
            suffix@ == ".resolution.json"@,
            m <= n,
            i <= m,
            forall|k: int| 0 <= k < i ==> name@[n - m + k] == suffix@[k],
        decreases m - i,
    {
        if name.get_char(n - m + i) != suffix.get_char(i) {
            assert(name@.subrange(n - m, n as int)[i as int] != suffix@[i as int]);
            return false;
        }
        i = i + 1;
    }
    assert(name@.subrange(n - m, n as int) =~= suffix@);
    true
}

/// The corpus file of an instrument: the last one that carries its
/// identifier.
pub open spec fn corpus_file_of(files: Seq<CorpusFileReport>, id: Seq<char>) -> Option<
    CorpusFileReport,
>
    decreases files.len(),
{
    if files.len() == 0 {
        None
    } else if files.last().instrument_id@ == id {
        Some(files.last())
    } else {
        corpus_file_of(files.drop_last(), id)
    }
}

/// The errors that a profile's facts raise against its corpus file, given
/// the end of that file's last day.
pub open spec fn facts_errors(
    facts: ProfileFacts,
    corpus: Option<CorpusFileReport>,
    corpus_end: Option<i64>,
) -> Seq<Seq<char>> {
    let name = facts.file_name@;
    let expected = spec_profile_file_name(facts.instrument_id@, facts.timeframe);
    let naming = if name != expected {
        seq![identity_message(name, expected)]
    } else {
        Seq::empty()
    };
    naming + match corpus {
        None => seq![no_corpus_message(name, facts.instrument_id@)],
        Some(f) => {
            let coverage = match corpus_end {
                Some(end) => if facts.calibration_end_ns > end {
                    seq![coverage_message(name)]
                } else {
                    Seq::empty()
                },
                None => Seq::empty(),
            };
            let gated = if facts.publication_eligible && f.cadence_anomalies > 0 {
                seq![gated_message(name, f.cadence_anomalies as nat)]
            } else {
                Seq::empty()
            };
            coverage + gated
        },
    }
}

/// The errors that one profile raises against the corpus files.
pub open spec fn profile_errors(files: Seq<CorpusFileReport>, p: ProfileEntry) -> Seq<Seq<char>> {
    match p {
        Err(message) => seq![message@],
        Ok(facts) => {
            let corpus = corpus_file_of(files, facts.instrument_id@);
            let corpus_end = match corpus {
                Some(f) => end_exclusive(f.actual_end@),
                None => None,
            };
            facts_errors(facts, corpus, corpus_end)
        },
    }
}

/// The errors of the profiles, in order.
pub open spec fn profiles_errors(files: Seq<CorpusFileReport>, ps: Seq<ProfileEntry>) -> Seq<
    Seq<char>,
>
    decreases ps.len(),
{
    if ps.len() == 0 {
        Seq::empty()
    } else {
        profiles_errors(files, ps.drop_last()) + profile_errors(files, ps.last())
    }
}

/// A validated D1 profile for the instrument, whose corpus file exists.
pub open spec fn is_d1_profile(files: Seq<CorpusFileReport>, p: ProfileEntry, id: Seq<char>) -> bool {
    &&& p matches Ok(facts)
    &&& facts.timeframe == Timeframe::D1
    &&& facts.instrument_id@ == id
    &&& corpus_file_of(files, id) is Some
}

/// Some profile is a validated D1 profile of the instrument.
pub open spec fn d1_covered(files: Seq<CorpusFileReport>, ps: Seq<ProfileEntry>, id: Seq<char>) -> bool {
    exists|i: int| 0 <= i < ps.len() && #[trigger] is_d1_profile(files, ps[i], id)
}

/// The errors of the corpus files in `prefix` that no D1 profile covers.
pub open spec fn coverage_errors(
    files: Seq<CorpusFileReport>,
    prefix: Seq<CorpusFileReport>,
    ps: Seq<ProfileEntry>,
) -> Seq<Seq<char>>
    decreases prefix.len(),
{
    if prefix.len() == 0 {
        Seq::empty()
    } else {
        let f = prefix.last();
        coverage_errors(files, prefix.drop_last(), ps) + if d1_covered(files, ps, f.instrument_id@) {
            Seq::<Seq<char>>::empty()
        } else {
            seq![uncovered_message(f.file@)]
        }
    }
}

/// What inspecting the profiles against the serving corpus finds.
pub open spec fn inspection_errors(files: Seq<CorpusFileReport>, ps: Seq<ProfileEntry>) -> Seq<
    Seq<char>,
> {
    if ps.len() == 0 {
        seq!["no resolution profiles are available"@]
    } else {
        profiles_errors(files, ps) + coverage_errors(files, files, ps)
    }
}

fn push_texts(target: &mut Vec<String>, items: Vec<String>)
    ensures
        texts(final(target)@) == texts(old(target)@) + texts(items@),
{
    let ghost start = target@;
    let n = items.len();
    let mut i: usize = 0;
    while i < n
        invariant
            n == items@.len(),
            i <= n,
            texts(target@) == texts(start) + texts(items@.subrange(0, i as int)),
        decreases n - i,
    {
        let ghost before = target@;
        target.push(items[i].clone());
        assert(texts(target@) =~= texts(before).push(items@[i as int]@));
        assert(texts(items@.subrange(0, i + 1)) =~= texts(items@.subrange(0, i as int)).push(
            items@[i as int]@,
        ));
        i = i + 1;
    }
    assert(items@.subrange(0, n as int) =~= items@);
}

fn find_corpus_file(files: &Vec<CorpusFileReport>, id: &str) -> (r: Option<usize>)
    ensures
        match r {
            Some(k) => k < files@.len() && corpus_file_of(files@, id@) == Some(files@[k as int]),
            None => corpus_file_of(files@, id@) is None,
        },
{
    let mut i: usize = files.len();
    assert(files@.subrange(0, i as int) =~= files@);
    while i > 0
        invariant
            i <= files@.len(),
            corpus_file_of(files@, id@) == corpus_file_of(files@.subrange(0, i as int), id@),
        decreases i,
    {
        let prefix = Ghost(files@.subrange(0, i as int));
        assert(prefix@.last() == files@[i - 1]);
        assert(prefix@.drop_last() =~= files@.subrange(0, i - 1));
        if text_eq(files[i - 1].instrument_id.as_str(), id) {
            return Some(i - 1);
        }
        i = i - 1;
    }
    None
}

fn single(text: String) -> (r: Vec<String>)
    ensures
        texts(r@) == seq![text@],
{
    let mut v: Vec<String> = Vec::new();
    v.push(text);
    assert(texts(v@) =~= seq![text@]);
    v
}

/// The errors that a profile's facts raise against its corpus file (none
/// when the instrument has no corpus file), given the end of that file's
/// last day.
pub fn profile_facts_errors(
    facts: &ProfileFacts,
    corpus: Option<&CorpusFileReport>,
    corpus_end_ns: Option<i64>,
) -> (r: Vec<String>)
    ensures
        texts(r@) == facts_errors(
            *facts,
            match corpus {
                Some(f) => Some(*f),
                None => None,
            },
            corpus_end_ns,
        ),
{
    let mut out: Vec<String> = Vec::new();
    let name = facts.file_name.as_str();
    let expected = profile_file_name(facts.instrument_id.as_str(), facts.timeframe);
    if !text_eq(name, expected.as_str()) {
        let mut message = concat("profile ", name);
        push_text(&mut message, " identity requires filename ");
        push_text(&mut message, expected.as_str());
        out.push(message);
    }
    let ghost naming = texts(out@);
    match corpus {
        None => {
            let mut message = concat("profile ", name);
            push_text(&mut message, " has no serving corpus for ");
            push_text(&mut message, facts.instrument_id.as_str());
            out.push(message);
            assert(texts(out@) =~= naming + seq![no_corpus_message(name@, facts.instrument_id@)]);
        },
        Some(f) => {
            match corpus_end_ns {
                Some(end) => {
                    if facts.calibration_end_ns > end {
                        let mut message = concat("profile ", name);
                        push_text(&mut message, " extends beyond serving-corpus coverage");
                        out.push(message);
                    }
                },
                None => {},
            }
            let ghost after_coverage = texts(out@);
            if facts.publication_eligible && f.cadence_anomalies > 0 {
                let mut message = concat("publication-eligible profile ", name);
                push_text(&mut message, " uses a corpus with ");
                let count = decimal_text(f.cadence_anomalies);
                push_text(&mut message, count.as_str());
                push_text(&mut message, " cadence anomalies");
                out.push(message);
                assert(texts(out@) =~= after_coverage.push(
                    gated_message(name@, f.cadence_anomalies as nat),
                ));
            }
            proof {
                let errs = facts_errors(*facts, Some(*f), corpus_end_ns);
                assert(texts(out@) =~= errs);
            }
        },
    }
    out
}

fn profile_findings(files: &Vec<CorpusFileReport>, p: &ProfileEntry) -> (r: Vec<String>)
    ensures
        texts(r@) == profile_errors(files@, *p),
{
    match p {
        Err(message) => single(message.clone()),
        Ok(facts) => match find_corpus_file(files, facts.instrument_id.as_str()) {
            None => profile_facts_errors(facts, None, None),
            Some(k) => {
                let f = &files[k];
                let end = report_end_exclusive_ns(f.actual_end.as_str());
                profile_facts_errors(facts, Some(f), end)
            },
        },
    }
}

fn has_d1_profile(files: &Vec<CorpusFileReport>, profiles: &[ProfileEntry], id: &str) -> (r: bool)
    ensures
        r == d1_covered(files@, profiles@, id@),
{
    let has_corpus = match find_corpus_file(files, id) {
        Some(_) => true,
        None => false,
    };
    let n = profiles.len();
    let mut i: usize = 0;
    while i < n
        invariant
            n == profiles@.len(),
            i <= n,
            has_corpus == corpus_file_of(files@, id@) is Some,
            forall|k: int| 0 <= k < i ==> !#[trigger] is_d1_profile(files@, profiles@[k], id@),
        decreases n - i,
    {
        match &profiles[i] {
            Ok(facts) => {
                if has_corpus && facts.timeframe == Timeframe::D1 && text_eq(
                    facts.instrument_id.as_str(),
                    id,
                ) {
                    assert(is_d1_profile(files@, profiles@[i as int], id@));
                    return true;
                }
            },
            Err(_) => {},
        }
        i = i + 1;
    }
    false
}

/// Checks the profiles against the serving corpus: names, coverage,
/// publication gating, and a validated D1 profile for every corpus file.
pub fn inspect_profiles(
    corpus: &CorpusAuditReport,
    profiles: &[ProfileEntry],
    readiness: &mut RuntimeReadiness,
)
    ensures
        final(readiness).warnings == old(readiness).warnings,
        texts(final(readiness).errors@) == texts(old(readiness).errors@) + inspection_errors(
            corpus.files@,
            profiles@,
        ),
{
    let files = &corpus.files;
    if profiles.len() == 0 {
        let ghost before = readiness.errors@;
        readiness.errors.push("no resolution profiles are available".to_owned());
        assert(texts(readiness.errors@) =~= texts(before).push("no resolution profiles are available"@));
        return;
    }
    let ghost start = texts(readiness.errors@);
    let n = profiles.len();
    let mut i: usize = 0;
    while i < n
        invariant
            n == profiles@.len(),
            i <= n,
            readiness.warnings == old(readiness).warnings,
            start == texts(old(readiness).errors@),
            texts(readiness.errors@) == start + profiles_errors(
                files@,
                profiles@.subrange(0, i as int),
            ),
        decreases n - i,
    {
        let found = profile_findings(files, &profiles[i]);
        push_texts(&mut readiness.errors, found);
        proof {
            let prefix = profiles@.subrange(0, i + 1);
            assert(prefix.drop_last() =~= profiles@.subrange(0, i as int));
            assert(prefix.last() == profiles@[i as int]);
        }
        i = i + 1;
    }
    assert(profiles@.subrange(0, n as int) =~= profiles@);
    let ghost after_profiles = texts(readiness.errors@);
    let m = files.len();
    let mut j: usize = 0;
    while j < m
        invariant
            m == files@.len(),
            j <= m,
            readiness.warnings == old(readiness).warnings,
            texts(readiness.errors@) == after_profiles + coverage_errors(
                files@,
                files@.subrange(0, j as int),
                profiles@,
            ),
        decreases m - j,
    {
        let f = &files[j];
        let prefix = Ghost(files@.subrange(0, j + 1));
        assert(prefix@.drop_last() =~= files@.subrange(0, j as int));
        assert(prefix@.last() == files@[j as int]);
        if !has_d1_profile(files, profiles, f.instrument_id.as_str()) {
            let ghost before = texts(readiness.errors@);
            let mut message = concat("serving corpus ", f.file.as_str());
            push_text(&mut message, " has no validated D1 resolution profile");
            readiness.errors.push(message);
            assert(texts(readiness.errors@) =~= before.push(uncovered_message(f.file@)));
        }
        j = j + 1;
    }
    assert(files@.subrange(0, m as int) =~= files@);
}

/// The warnings that one corpus file raises at time `now_ns`, given the end
/// of its last day.
pub fn corpus_file_warnings(f: &CorpusFileReport, end_exclusive_ns: Option<i64>, now_ns: i64) -> (r: Vec<
    String,
>)
    ensures
        texts(r@) == warnings_at(*f, end_exclusive_ns, now_ns),
{
    let mut out: Vec<String> = Vec::new();
    if f.cadence_anomalies > 0 {
        let mut message = concat("runtime corpus ", f.file.as_str());
        push_text(&mut message, " has ");
        let count = decimal_text(f.cadence_anomalies);
        push_text(&mut message, count.as_str());
        push_text(&mut message, " cadence anomalies; publication remains gated");
        out.push(message);
    }
    let ghost after_cadence = texts(out@);
    match end_exclusive_ns {
        Some(end_ns) => {
            if end_ns < now_ns {
                let mut message = concat("runtime corpus ", f.file.as_str());
                push_text(&mut message, " is historical; native responses are marked STALE_DATA");
                out.push(message);
                assert(texts(out@) =~= after_cadence.push(stale_warning(f.file@)));
            }
        },
        None => {},
    }
    assert(texts(out@) =~= warnings_at(*f, end_exclusive_ns, now_ns));
    out
}

/// Checks each serving corpus file at time `now_ns`: a rejected file is an
/// error; cadence anomalies and a corpus that ended before now are warnings.
pub fn check_corpus_files(corpus: &CorpusAuditReport, now_ns: i64, readiness: &mut RuntimeReadiness)
    ensures
        texts(final(readiness).errors@) == texts(old(readiness).errors@) + corpus_errors(
            corpus.files@,
        ),
        texts(final(readiness).warnings@) == texts(old(readiness).warnings@) + corpus_warnings(
            corpus.files@,
            now_ns,
        ),
{
    let files = &corpus.files;
    let ghost errors0 = texts(readiness.errors@);
    let ghost warnings0 = texts(readiness.warnings@);
    let n = files.len();
    let mut i: usize = 0;
    while i < n
        invariant
            n == files@.len(),
            i <= n,
            errors0 == texts(old(readiness).errors@),
            warnings0 == texts(old(readiness).warnings@),
            texts(readiness.errors@) == errors0 + corpus_errors(files@.subrange(0, i as int)),
            texts(readiness.warnings@) == warnings0 + corpus_warnings(
                files@.subrange(0, i as int),
                now_ns,
            ),
        decreases n - i,
    {
        let f = &files[i];
        let prefix = Ghost(files@.subrange(0, i + 1));
        assert(prefix@.drop_last() =~= files@.subrange(0, i as int));
        assert(prefix@.last() == files@[i as int]);
        let ghost e_before = texts(readiness.errors@);
        let ghost w_before = texts(readiness.warnings@);
        if !f.accepted {
            let mut message = concat("runtime corpus ", f.file.as_str());
            push_text(&mut message, " failed pinned structure/hash validation");
            readiness.errors.push(message);
        }
        assert(texts(readiness.errors@) =~= e_before + file_errors(files@[i as int]));
        let end_ns = report_end_exclusive_ns(f.actual_end.as_str());
        let found = corpus_file_warnings(f, end_ns, now_ns);
        push_texts(&mut readiness.warnings, found);
        assert(texts(readiness.warnings@) =~= w_before + file_warnings(files@[i as int], now_ns));
        i = i + 1;
    }
    assert(files@.subrange(0, n as int) =~= files@);
}

/// Readiness at time `now_ns`, from the runtime corpus audit and the
/// profiles found in the calibration directory (or the error met listing
/// it).
pub fn evaluate_runtime_readiness_at(
    corpus: &Result<CorpusAuditReport, CorpusError>,
    profiles: &Result<Vec<ProfileEntry>, String>,
    now_ns: i64,
) -> (r: RuntimeReadiness)
    ensures
        match corpus {
            Err(e) => {
                &&& texts(r.errors@) == seq![audit_failure_message(*e)]
                &&& r.warnings@.len() == 0
            },
            Ok(report) => {
                &&& texts(r.warnings@) == corpus_warnings(report.files@, now_ns)
                &&& texts(r.errors@) == corpus_errors(report.files@) + match profiles {
                    Err(message) => seq![directory_message(message@)],
                    Ok(ps) => inspection_errors(report.files@, ps@),
                }
            },
        },
{
    let mut readiness = RuntimeReadiness::new();
    match corpus {
        Err(e) => {
            let text = e.message();
            let message = concat("runtime corpus audit failed: ", text.as_str());
            readiness.errors.push(message);
            assert(texts(readiness.errors@) =~= seq![audit_failure_message(*e)]);
            readiness
        },
        Ok(report) => {
            assert(texts(readiness.errors@) =~= Seq::<Seq<char>>::empty());
            assert(texts(readiness.warnings@) =~= Seq::<Seq<char>>::empty());
            check_corpus_files(report, now_ns, &mut readiness);
            let ghost after_corpus = texts(readiness.errors@);
            match profiles {
                Err(message) => {
                    let text = concat("calibration directory is unavailable: ", message.as_str());
                    readiness.errors.push(text);
                    assert(texts(readiness.errors@) =~= after_corpus.push(
                        directory_message(message@),
                    ));
                },
                Ok(ps) => {
                    inspect_profiles(report, ps.as_slice(), &mut readiness);
                },
            }
            readiness
        },
    }
}

/// Readiness now: the clock is read once and the rest is
/// `evaluate_runtime_readiness_at`. A clock that reads earlier than the
/// epoch, or past the nanosecond range, counts as the epoch itself, which
/// is the instant a reading that cannot be had in nanoseconds falls back to.
pub fn evaluate_runtime_readiness(
    corpus: &Result<CorpusAuditReport, CorpusError>,
    profiles: &Result<Vec<ProfileEntry>, String>,
) -> (r: RuntimeReadiness)
    ensures
        exists|now_ns: i64|
            #[trigger] readiness_is(r, corpus, profiles, now_ns),
{
    let now_ns = match utc_now_ns() {
        Some(t) => t,
        None => 0,
    };
    let r = evaluate_runtime_readiness_at(corpus, profiles, now_ns);
    assert(readiness_is(r, corpus, profiles, now_ns));
    r
}

/// What `evaluate_runtime_readiness_at` answers at time `now_ns`.
pub open spec fn readiness_is(
    r: RuntimeReadiness,
    corpus: &Result<CorpusAuditReport, CorpusError>,
    profiles: &Result<Vec<ProfileEntry>, String>,
    now_ns: i64,
) -> bool {
    match corpus {
        Err(e) => {
            &&& texts(r.errors@) == seq![audit_failure_message(*e)]
            &&& r.warnings@.len() == 0
        },
        Ok(report) => {
            &&& texts(r.warnings@) == corpus_warnings(report.files@, now_ns)
            &&& texts(r.errors@) == corpus_errors(report.files@) + match profiles {
                Err(message) => seq![directory_message(message@)],
                Ok(ps) => inspection_errors(report.files@, ps@),
            }
        },
    }
}

proof fn lemma_no_corpus_errors(files: Seq<CorpusFileReport>)
    requires
        corpus_errors(files).len() == 0,
    ensures
        forall|i: int| 0 <= i < files.len() ==> (#[trigger] files[i]).accepted,
    decreases files.len(),
{
    if files.len() > 0 {
        let rest = files.drop_last();
        assert(corpus_errors(files) == corpus_errors(rest) + file_errors(files.last()));
        lemma_no_corpus_errors(rest);
        assert forall|i: int| 0 <= i < files.len() implies (#[trigger] files[i]).accepted by {
            if i < rest.len() {
                assert(rest[i] == files[i]);
            }
        }
    }
}

proof fn lemma_no_coverage_errors(
    files: Seq<CorpusFileReport>,
    prefix: Seq<CorpusFileReport>,
    ps: Seq<ProfileEntry>,
)
    requires
        coverage_errors(files, prefix, ps).len() == 0,
    ensures
        forall|i: int|
            0 <= i < prefix.len() ==> d1_covered(files, ps, (#[trigger] prefix[i]).instrument_id@),
    decreases prefix.len(),
{
    if prefix.len() > 0 {
        let rest = prefix.drop_last();
        lemma_no_coverage_errors(files, rest, ps);
        assert forall|i: int| 0 <= i < prefix.len() implies d1_covered(
            files,
            ps,
            (#[trigger] prefix[i]).instrument_id@,
        ) by {
            if i < rest.len() {
                assert(rest[i] == prefix[i]);
            }
        }
    }
}

/// A ready service serves only accepted corpus files, and each of them has
/// a validated D1 resolution profile.
pub proof fn lemma_ready_corpus_is_covered(files: Seq<CorpusFileReport>, ps: Seq<ProfileEntry>)
    requires
        (corpus_errors(files) + inspection_errors(files, ps)).len() == 0,
    ensures
        ps.len() > 0,
        forall|i: int|
            0 <= i < files.len() ==> (#[trigger] files[i]).accepted && d1_covered(
                files,
                ps,
                files[i].instrument_id@,
            ),
{
    lemma_no_corpus_errors(files);
    if ps.len() == 0 {
        assert(inspection_errors(files, ps).len() == 1);
    } else {
        lemma_no_coverage_errors(files, files, ps);
    }
}

} // verus!
