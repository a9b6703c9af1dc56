//! The command line: which URLs to probe and with what settings.
//!
//! Reading the arguments is split from reading the files they name. First
//! [`parse_args`] turns the raw arguments into a [`CommandLine`]. The caller
//! then reads the files that [`CommandLine::file_paths`] lists, and
//! [`CommandLine::resolve`] turns the command line and those contents into a
//! [`RunConfig`], or rejects a run that has no URL.

use crate::text::{
    chars_of, lemma_texts_push, parse_unsigned, same_text, string_of, texts, trim_bounds, trimmed,
    unsigned_argument,
};
use vstd::prelude::*;

verus! {

/// Worker count used when the host's parallelism is unknown.
pub const FALLBACK_WORKERS: usize = 4;

/// Per-request timeout, in seconds, used unless `--timeout` sets another.
pub const DEFAULT_TIMEOUT_SECS: u64 = 5;

/// Retry budget used unless `--retries` sets another.
pub const DEFAULT_RETRIES: u32 = 0;

/// Exit status of a run that was carried out, whatever its probes found.
pub const EXIT_OK: i32 = 0;

/// Exit status of a run that was rejected because it had no URL.
pub const EXIT_NO_URLS: i32 = 2;

/// Where URLs come from: an argument that is itself a URL, or a file that
/// lists one URL per line.
#[derive(Debug, PartialEq, Eq)]
pub enum UrlSource {
    Literal(String),
    File(String),
}

pub enum UrlSourceView {
    Literal(Seq<char>),
    File(Seq<char>),
}

impl View for UrlSource {
    type V = UrlSourceView;

    open spec fn view(&self) -> UrlSourceView {
        match self {
            UrlSource::Literal(url) => UrlSourceView::Literal(url@),
            UrlSource::File(path) => UrlSourceView::File(path@),
        }
    }
}

pub open spec fn source_views(v: Seq<UrlSource>) -> Seq<UrlSourceView> {
    v.map_values(|s: UrlSource| s@)
}

/// What the arguments say, before any file is read.
#[derive(Debug, PartialEq, Eq)]
pub struct CommandLine {
    sources: Vec<UrlSource>,
    workers: usize,
    timeout_secs: u64,
    retries: u32,
}

pub struct CommandLineView {
    pub sources: Seq<UrlSourceView>,
    pub workers: nat,
    pub timeout_secs: nat,
    pub retries: nat,
}

impl View for CommandLine {
    type V = CommandLineView;

    closed spec fn view(&self) -> CommandLineView {
        CommandLineView {
            sources: source_views(self.sources@),
            workers: self.workers as nat,
            timeout_secs: self.timeout_secs as nat,
            retries: self.retries as nat,
        }
    }
}

/// A run that may start: at least one URL, at least one worker, a positive
/// timeout.
#[derive(Debug, PartialEq, Eq)]
pub struct RunConfig {
    urls: Vec<String>,
    workers: usize,
    timeout_secs: u64,
    retries: u32,
}

pub struct RunConfigView {
    pub urls: Seq<Seq<char>>,
    pub workers: nat,
    pub timeout_secs: nat,
    pub retries: nat,
}

impl View for RunConfig {
    type V = RunConfigView;

    closed spec fn view(&self) -> RunConfigView {
        RunConfigView {
            urls: texts(self.urls@),
            workers: self.workers as nat,
            timeout_secs: self.timeout_secs as nat,
            retries: self.retries as nat,
        }
    }
}

/// Why a run was rejected before it started.
#[derive(Debug, Clone, Copy, PartialEq, Eq)]
pub enum ConfigError {
    /// No URL was given, neither as an argument nor in a file.
    NoUrls,
}

/// The number of workers of a run whose command line names none: the host's
/// parallelism where it is known, else [`FALLBACK_WORKERS`].
pub open spec fn default_workers(detected: Option<usize>) -> nat {
    match detected {
        Some(n) => if n >= 1 {
            n as nat
        } else {
            FALLBACK_WORKERS as nat
        },
        None => FALLBACK_WORKERS as nat,
    }
}

/// The command line of a program that was started without arguments.
pub open spec fn initial_command_line(workers: nat) -> CommandLineView {
    CommandLineView {
        sources: Seq::empty(),
        workers,
        timeout_secs: DEFAULT_TIMEOUT_SECS as nat,
        retries: DEFAULT_RETRIES as nat,
    }
}

/// Tells whether `arg` is one of the options, each of which takes the
/// argument after it as its value.
pub open spec fn is_option(arg: Seq<char>) -> bool {
    arg == "--file"@ || arg == "--workers"@ || arg == "--timeout"@ || arg == "--retries"@
}

/// The value of a numeric setting after an option gave `value` for it: the
/// number that `value` denotes if it is one between `min` and `max`, else
/// `fallback`.
pub open spec fn setting(value: Seq<char>, min: nat, max: nat, fallback: nat) -> nat {
    match unsigned_argument(value, max) {
        Some(n) => if n >= min {
            n
        } else {
            fallback
        },
        None => fallback,
    }
}

/// The command line after the option `name` was given with `value`. An
/// invalid number of workers leaves the number of workers as it was; an
/// invalid timeout or retry budget puts the default in its place, whatever was
/// set before.
pub open spec fn with_option(cl: CommandLineView, name: Seq<char>, value: Seq<char>)
    -> CommandLineView {
    if name == "--file"@ {
        CommandLineView { sources: cl.sources.push(UrlSourceView::File(value)), ..cl }
    } else if name == "--workers"@ {
        CommandLineView { workers: setting(value, 1, usize::MAX as nat, cl.workers), ..cl }
    } else if name == "--timeout"@ {
        CommandLineView {
            timeout_secs: setting(value, 1, u64::MAX as nat, DEFAULT_TIMEOUT_SECS as nat),
            ..cl
        }
    } else {
        CommandLineView {
            retries: setting(value, 0, u32::MAX as nat, DEFAULT_RETRIES as nat),
            ..cl
        }
    }
}

/// The command line after the arguments from index `i` on were read, starting
/// from `cl`. An option takes the next argument as its value and is ignored
/// when it is the last argument; any other argument is a URL.
pub open spec fn parse_from(args: Seq<Seq<char>>, i: int, cl: CommandLineView) -> CommandLineView
    decreases args.len() - i,
{
    if i < 0 || i >= args.len() {
        cl
    } else if is_option(args[i]) {
        if i + 1 < args.len() {
            parse_from(args, i + 2, with_option(cl, args[i], args[i + 1]))
        } else {
            cl
        }
    } else {
        parse_from(
            args,
            i + 1,
            CommandLineView { sources: cl.sources.push(UrlSourceView::Literal(args[i])), ..cl },
        )
    }
}

/// What the process arguments `args` say; `args[0]` is the program's name and
/// is skipped.
pub open spec fn parsed(args: Seq<Seq<char>>, workers: nat) -> CommandLineView {
    parse_from(args, 1, initial_command_line(workers))
}

/// The number of files among `sources`.
pub open spec fn file_count(sources: Seq<UrlSourceView>) -> nat
    decreases sources.len(),
{
    if sources.len() == 0 {
        0
    } else {
        file_count(sources.drop_last()) + if sources.last() is File {
            1nat
        } else {
            0nat
        }
    }
}

/// The paths of the files among `sources`, in order.
pub open spec fn file_paths_of(sources: Seq<UrlSourceView>) -> Seq<Seq<char>>
    decreases sources.len(),
{
    if sources.len() == 0 {
        Seq::empty()
    } else {
        match sources.last() {
            UrlSourceView::File(path) => file_paths_of(sources.drop_last()).push(path),
            UrlSourceView::Literal(_) => file_paths_of(sources.drop_last()),
        }
    }
}

/// Tells whether a trimmed line of a URL file names a URL: blank lines and
/// lines that start with `#` do not.
pub open spec fn is_url_line(line: Seq<char>) -> bool {
    line.len() > 0 && line[0] != '#'
}

/// The URLs that the lines of a file list: each line trimmed, without the
/// blank lines and the comments.
pub open spec fn url_lines(lines: Seq<Seq<char>>) -> Seq<Seq<char>>
    decreases lines.len(),
{
    if lines.len() == 0 {
        Seq::empty()
    } else if is_url_line(trimmed(lines.last())) {
        url_lines(lines.drop_last()).push(trimmed(lines.last()))
    } else {
        url_lines(lines.drop_last())
    }
}

/// The URLs of a run, in the order of the command line. `files[k]` holds the
/// lines of the `k`-th file that the command line names, if it could be
/// read; a file that could not be read, or that has no entry, adds nothing.
pub open spec fn resolved_urls(
    sources: Seq<UrlSourceView>,
    files: Seq<Option<Seq<Seq<char>>>>,
) -> Seq<Seq<char>>
    decreases sources.len(),
{
    if sources.len() == 0 {
        Seq::empty()
    } else {
        let before = resolved_urls(sources.drop_last(), files);
        match sources.last() {
            UrlSourceView::Literal(url) => before.push(url),
            UrlSourceView::File(_) => {
                let k = file_count(sources.drop_last()) as int;
                if k < files.len() && files[k] is Some {
                    before + url_lines(files[k]->0)
                } else {
                    before
                }
            },
        }
    }
}

/// What the contents handed to [`CommandLine::resolve`] hold.
pub open spec fn file_views(files: Seq<Option<Vec<String>>>) -> Seq<Option<Seq<Seq<char>>>> {
    files.map_values(
        |f: Option<Vec<String>>|
            match f {
                Some(lines) => Some(texts(lines@)),
                None => None,
            },
    )
}

/// Every command line has at least one worker and a positive timeout, as long
/// as it started with them.
pub proof fn lemma_parse_keeps_positive(args: Seq<Seq<char>>, i: int, cl: CommandLineView)
    requires
        cl.workers >= 1,
        cl.timeout_secs >= 1,
    ensures
        parse_from(args, i, cl).workers >= 1,
        parse_from(args, i, cl).timeout_secs >= 1,
    decreases args.len() - i,
{
    if i < 0 || i >= args.len() {
    } else if is_option(args[i]) {
        if i + 1 < args.len() {
            lemma_parse_keeps_positive(args, i + 2, with_option(cl, args[i], args[i + 1]));
        }
    } else {
        lemma_parse_keeps_positive(
            args,
            i + 1,
            CommandLineView { sources: cl.sources.push(UrlSourceView::Literal(args[i])), ..cl },
        );
    }
}

/// The number of workers to use when the command line names none.
pub fn default_worker_count(detected: Option<usize>) -> (n: usize)
    ensures
        n == default_workers(detected),
        n >= 1,
{
    match detected {
        Some(n) => if n >= 1 {
            n
        } else {
            FALLBACK_WORKERS
        },
        None => FALLBACK_WORKERS,
    }
}

/// Reads the value of a numeric option.
fn read_setting(value: &str, min: u128, max: u128, fallback: u128) -> (r: u128)
    requires
        min <= fallback <= max,
    ensures
        r == setting(value@, min as nat, max as nat, fallback as nat),
        min <= r <= max,
{
    match parse_unsigned(value, max) {
        Some(n) => if n >= min {
            n
        } else {
            fallback
        },
        None => fallback,
    }
}

/// Reads the process arguments. `args[0]` is the program's name;
/// `detected_parallelism` is the host's parallelism, if known.
pub fn parse_args(args: &Vec<String>, detected_parallelism: Option<usize>) -> (cl: CommandLine)
    ensures
        cl@ == parsed(texts(args@), default_workers(detected_parallelism)),
        cl@.workers >= 1,
        cl@.timeout_secs >= 1,
{
    let mut sources: Vec<UrlSource> = Vec::new();
    let mut workers: usize = default_worker_count(detected_parallelism);
    let mut timeout_secs: u64 = DEFAULT_TIMEOUT_SECS;
    let mut retries: u32 = DEFAULT_RETRIES;
    let ghost all = texts(args@);
    let ghost start = initial_command_line(default_workers(detected_parallelism));
    assert(source_views(sources@) =~= start.sources);
    let mut i: usize = 1;
    while i < args.len()
        invariant
            1 <= i,
            all == texts(args@),
            workers >= 1,
            timeout_secs >= 1,
            parse_from(all, 1, start) == parse_from(
                all,
                i as int,
                CommandLineView {
                    sources: source_views(sources@),
                    workers: workers as nat,
                    timeout_secs: timeout_secs as nat,
                    retries: retries as nat,
                },
            ),
        decreases args.len() - i,
    {
        let ghost before = CommandLineView {
            sources: source_views(sources@),
            workers: workers as nat,
            timeout_secs: timeout_secs as nat,
            retries: retries as nat,
        };
        let arg = &args[i];
        assert(all[i as int] == arg@);
        let is_file = same_text(arg, "--file");
        let is_workers = same_text(arg, "--workers");
        let is_timeout = same_text(arg, "--timeout");
        let is_retries = same_text(arg, "--retries");
        if is_file || is_workers || is_timeout || is_retries {
            if i + 1 < args.len() {
                let value = &args[i + 1];
                assert(all[i + 1] == value@);
                if is_file {
                    let ghost old_sources = sources@;
                    sources.push(UrlSource::File(value.clone()));
                    assert(source_views(sources@) =~= source_views(old_sources).push(
                        UrlSourceView::File(value@),
                    ));
                } else if is_workers {
                    workers = read_setting(value, 1, usize::MAX as u128, workers as u128) as usize;
                } else if is_timeout {
                    timeout_secs = read_setting(
                        value,
                        1,
                        u64::MAX as u128,
                        DEFAULT_TIMEOUT_SECS as u128,
                    ) as u64;
                } else {
                    retries = read_setting(
                        value,
                        0,
                        u32::MAX as u128,
                        DEFAULT_RETRIES as u128,
                    ) as u32;
                }
                assert(CommandLineView {
                    sources: source_views(sources@),
                    workers: workers as nat,
                    timeout_secs: timeout_secs as nat,
                    retries: retries as nat,
                } == with_option(before, arg@, value@));
                i += 2;
            } else {
                i += 1;
            }
        } else {
            let ghost old_sources = sources@;
            sources.push(UrlSource::Literal(arg.clone()));
            assert(source_views(sources@) =~= source_views(old_sources).push(
                UrlSourceView::Literal(arg@),
            ));
            i += 1;
        }
    }
    CommandLine { sources, workers, timeout_secs, retries }
}

/// Adds to `out` the URLs that `lines` list.
fn push_url_lines(lines: &Vec<String>, out: &mut Vec<String>)
    ensures
        texts(final(out)@) == texts(old(out)@) + url_lines(texts(lines@)),
{
    let ghost all = texts(lines@);
    let mut j: usize = 0;
    assert(all.take(0) =~= Seq::<Seq<char>>::empty());
    assert(texts(out@) =~= texts(old(out)@) + url_lines(all.take(0)));
    while j < lines.len()
        invariant
            j <= lines.len(),
            all == texts(lines@),
            texts(out@) == texts(old(out)@) + url_lines(all.take(j as int)),
        decreases lines.len() - j,
    {
        let v = chars_of(lines[j].as_str());
        let (from, to) = trim_bounds(&v);
        proof {
            assert(all.take(j + 1).drop_last() =~= all.take(j as int));
            assert(all.take(j + 1).last() == v@);
        }
        if from < to && v[from] != '#' {
            let url = string_of(&v, from, to);
            proof {
                lemma_texts_push(out@, url);
                assert(texts(old(out)@) + url_lines(all.take(j as int)).push(url@) =~= (texts(
                    old(out)@,
                ) + url_lines(all.take(j as int))).push(url@));
            }
            out.push(url);
        }
        j += 1;
    }
    assert(all.take(lines.len() as int) =~= all);
}

impl CommandLine {
    #[verifier::type_invariant]
    spec fn positive(&self) -> bool {
        self.workers >= 1 && self.timeout_secs >= 1
    }

    /// Where the URLs come from, in the order of the arguments.
    pub fn sources(&self) -> (sources: &Vec<UrlSource>)
        ensures
            source_views(sources@) == self@.sources,
    {
        &self.sources
    }

    /// The number of workers, at least one.
    pub fn workers(&self) -> (n: usize)
        ensures
            n == self@.workers,
            n >= 1,
    {
        proof {
            use_type_invariant(self);
        }
        self.workers
    }

    /// The timeout of one request in seconds, at least one.
    pub fn timeout_secs(&self) -> (n: u64)
        ensures
            n == self@.timeout_secs,
            n >= 1,
    {
        proof {
            use_type_invariant(self);
        }
        self.timeout_secs
    }

    /// The number of attempts allowed after the first.
    pub fn retries(&self) -> (n: u32)
        ensures
            n == self@.retries,
    {
        self.retries
    }

    /// The files to read before [`CommandLine::resolve`], in order.
    pub fn file_paths(&self) -> (paths: Vec<String>)
        ensures
            texts(paths@) == file_paths_of(self@.sources),
    {
        let ghost all = source_views(self.sources@);
        let mut paths: Vec<String> = Vec::new();
        let mut j: usize = 0;
        assert(all.take(0) =~= Seq::<UrlSourceView>::empty());
        assert(texts(paths@) =~= file_paths_of(all.take(0)));
        while j < self.sources.len()
            invariant
                j <= self.sources.len(),
                all == source_views(self.sources@),
                texts(paths@) == file_paths_of(all.take(j as int)),
            decreases self.sources.len() - j,
        {
            proof {
                assert(all.take(j + 1).drop_last() =~= all.take(j as int));
                assert(all.take(j + 1).last() == self.sources[j as int]@);
            }
            match &self.sources[j] {
                UrlSource::File(path) => {
                    let path = path.clone();
                    proof {
                        lemma_texts_push(paths@, path);
                    }
                    paths.push(path);
                },
                UrlSource::Literal(_) => {},
            }
            j += 1;
        }
        assert(all.take(self.sources.len() as int) =~= all);
        paths
    }

    /// Gathers the URLs of the run. `files[k]` holds the lines of the `k`-th
    /// path of [`CommandLine::file_paths`], or nothing if that file could not
    /// be read. A run without any URL is rejected.
    pub fn resolve(self, files: &Vec<Option<Vec<String>>>) -> (r: Result<RunConfig, ConfigError>)
        ensures
            match r {
                Ok(config) => {
                    &&& config@.urls == resolved_urls(self@.sources, file_views(files@))
                    &&& config@.urls.len() > 0
                    &&& config@.workers == self@.workers
                    &&& config@.timeout_secs == self@.timeout_secs
                    &&& config@.retries == self@.retries
                },
                Err(e) => e == ConfigError::NoUrls && resolved_urls(
                    self@.sources,
                    file_views(files@),
                ).len() == 0,
            },
    {
        proof {
            use_type_invariant(&self);
        }
        let ghost all = source_views(self.sources@);
        let ghost contents = file_views(files@);
        let mut urls: Vec<String> = Vec::new();
        let mut k: usize = 0;
        let mut j: usize = 0;
        assert(all.take(0) =~= Seq::<UrlSourceView>::empty());
        assert(texts(urls@) =~= resolved_urls(all.take(0), contents));
        while j < self.sources.len()
            invariant
                j <= self.sources.len(),
                k <= j,
                all == source_views(self.sources@),
                contents == file_views(files@),
                k == file_count(all.take(j as int)),
                texts(urls@) == resolved_urls(all.take(j as int), contents),
            decreases self.sources.len() - j,
        {
            proof {
                assert(all.take(j + 1).drop_last() =~= all.take(j as int));
                assert(all.take(j + 1).last() == self.sources[j as int]@);
            }
            match &self.sources[j] {
                UrlSource::Literal(url) => {
                    let url = url.clone();
                    proof {
                        lemma_texts_push(urls@, url);
                    }
                    urls.push(url);
                },
                UrlSource::File(_) => {
                    if k < files.len() {
                        match &files[k] {
                            Some(lines) => {
                                assert(contents[k as int] == Some(texts(lines@)));
                                push_url_lines(lines, &mut urls);
                            },
                            None => {
                                assert(contents[k as int] is None);
                            },
                        }
                    }
                    k += 1;
                },
            }
            j += 1;
        }
        assert(all.take(self.sources.len() as int) =~= all);
        if urls.len() == 0 {
            Err(ConfigError::NoUrls)
        } else {
            Ok(
                RunConfig {
                    urls,
                    workers: self.workers,
                    timeout_secs: self.timeout_secs,
                    retries: self.retries,
                },
            )
        }
    }
}

impl RunConfig {
    #[verifier::type_invariant]
    spec fn runnable(&self) -> bool {
        self.urls.len() >= 1 && self.workers >= 1 && self.timeout_secs >= 1
    }

    /// The URLs to probe, in the order of the command line; at least one.
    pub fn urls(&self) -> (urls: &Vec<String>)
        ensures
            texts(urls@) == self@.urls,
            urls.len() >= 1,
    {
        proof {
            use_type_invariant(self);
        }
        &self.urls
    }

    /// The number of workers, at least one.
    pub fn workers(&self) -> (n: usize)
        ensures
            n == self@.workers,
            n >= 1,
    {
        proof {
            use_type_invariant(self);
        }
        self.workers
    }

    /// The timeout of one request in seconds, at least one.
    pub fn timeout_secs(&self) -> (n: u64)
        ensures
            n == self@.timeout_secs,
            n >= 1,
    {
        proof {
            use_type_invariant(self);
        }
        self.timeout_secs
    }

    /// The number of attempts allowed after the first.
    pub fn retries(&self) -> (n: u32)
        ensures
            n == self@.retries,
    {
        self.retries
    }
}

impl ConfigError {
    /// The exit status that reports this error.
    pub fn exit_code(&self) -> (code: i32)
        ensures
            code == EXIT_NO_URLS,
    {
        EXIT_NO_URLS
    }

    /// The message to print on the error stream.
    pub fn message(&self) -> (text: String)
        ensures
            text@
                == "Usage: website_checker [--file sites.txt] [URL ...] [--workers N] [--timeout S] [--retries N]"@,
    {
        "Usage: website_checker [--file sites.txt] [URL ...] [--workers N] [--timeout S] [--retries N]".to_owned()
    }
}

} // verus!
