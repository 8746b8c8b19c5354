//! Merging a tree of files into one configuration, step by step.
//!
//! The library reads no file. A [`Merger`] says which file, entry or
//! directory it needs to know next, the caller looks and hands back what it
//! found, and the merger decides what follows from it.

use vstd::prelude::*;
use crate::dirs::Include;
use crate::document::{ConfigPart, ConfigPartView, FontConfig, FontConfigView};
use crate::entries::{load_order, order_entries, DirEntry, DirEntryView, EntryKind};
use crate::error::{Error, ErrorView};
use crate::parser::{parse_config_text, text_parts};
use crate::paths::{join, joined, resolved};
use crate::text::text_eq;
use crate::views::{lemma_popped, lemma_pushed, lemma_shifted};

verus! {

/// What becomes of the error of a file that could not be merged.
#[derive(Clone, Copy, Debug, PartialEq, Eq, Structural)]
pub enum Policy {
    /// The file is the one that the caller named: its error is the result.
    Root,
    /// The file was included by name: its error is reported.
    Loud,
    /// The file was included with leave to be missing, or is one of a
    /// directory of files: its error is dropped.
    Quiet,
}

/// The policy for what an include loads.
pub open spec fn policy_of(loud: bool) -> Policy {
    if loud {
        Policy::Loud
    } else {
        Policy::Quiet
    }
}

/// Work that is still to do.
#[derive(Debug)]
pub enum Frame {
    /// The parts of `file` that are still to fold in, and the error that
    /// ends the file after them, if its reading ended in one.
    Parts { file: String, rest: Vec<ConfigPart>, failure: Option<Error>, policy: Policy },
    /// The files of the directory `dir` that are still to merge, by name.
    Files { dir: String, rest: Vec<String> },
}

/// What a [`Frame`] holds.
pub enum FrameView {
    Parts {
        file: Seq<char>,
        rest: Seq<ConfigPartView>,
        failure: Option<ErrorView>,
        policy: Policy,
    },
    Files { dir: Seq<char>, rest: Seq<Seq<char>> },
}

impl DeepView for Frame {
    type V = FrameView;

    open spec fn deep_view(&self) -> FrameView {
        match self {
            Frame::Parts { file, rest, failure, policy } => FrameView::Parts {
                file: file@,
                rest: rest.deep_view(),
                failure: failure.deep_view(),
                policy: *policy,
            },
            Frame::Files { dir, rest } => FrameView::Files { dir: dir@, rest: rest.deep_view() },
        }
    }
}

impl FrameView {
    /// Whether the frame holds the parts of the file `path`.
    pub open spec fn merges(self, path: Seq<char>) -> bool {
        match self {
            FrameView::Parts { file, .. } => file == path,
            FrameView::Files { .. } => false,
        }
    }

    /// How many items of the frame are still to do.
    pub open spec fn rest_len(self) -> nat {
        match self {
            FrameView::Parts { rest, .. } => rest.len(),
            FrameView::Files { rest, .. } => rest.len(),
        }
    }
}

/// What the merger is waiting to hear.
#[derive(Debug)]
pub enum Waiting {
    /// Nothing: the merge is over.
    Nothing,
    /// The text of `file`.
    Text { file: String, policy: Policy },
    /// What kind of thing `path` is.
    Kind { path: String, loud: bool },
    /// The entries of the directory `path`.
    Entries { path: String, loud: bool },
}

/// What a [`Waiting`] holds.
pub enum WaitingView {
    Nothing,
    Text { file: Seq<char>, policy: Policy },
    Kind { path: Seq<char>, loud: bool },
    Entries { path: Seq<char>, loud: bool },
}

impl DeepView for Waiting {
    type V = WaitingView;

    open spec fn deep_view(&self) -> WaitingView {
        match self {
            Waiting::Nothing => WaitingView::Nothing,
            Waiting::Text { file, policy } => WaitingView::Text { file: file@, policy: *policy },
            Waiting::Kind { path, loud } => WaitingView::Kind { path: path@, loud: *loud },
            Waiting::Entries { path, loud } => WaitingView::Entries { path: path@, loud: *loud },
        }
    }
}

/// What the caller is to do next.
#[derive(Clone, Debug, PartialEq, Eq)]
pub enum Request {
    /// Read the text of the file.
    Read(String),
    /// Find out what kind of thing the path names, links followed.
    Inspect(String),
    /// List the entries of the directory, each with its kind, links not
    /// followed.
    List(String),
    /// Nothing: the merge is over.
    Done,
}

/// What a [`Request`] holds.
pub enum RequestView {
    Read(Seq<char>),
    Inspect(Seq<char>),
    List(Seq<char>),
    Done,
}

impl DeepView for Request {
    type V = RequestView;

    open spec fn deep_view(&self) -> RequestView {
        match self {
            Request::Read(path) => RequestView::Read(path@),
            Request::Inspect(path) => RequestView::Inspect(path@),
            Request::List(path) => RequestView::List(path@),
            Request::Done => RequestView::Done,
        }
    }
}

/// What the caller found. A failure carries the report of the file system.
#[derive(Debug, PartialEq, Eq)]
pub enum Reply {
    Text(Result<String, String>),
    Kind(Result<EntryKind, String>),
    Entries(Result<Vec<DirEntry>, String>),
}

/// What a [`Reply`] holds.
pub enum ReplyView {
    Text(Result<Seq<char>, Seq<char>>),
    Kind(Result<EntryKind, Seq<char>>),
    Entries(Result<Seq<DirEntryView>, Seq<char>>),
}

impl DeepView for Reply {
    type V = ReplyView;

    open spec fn deep_view(&self) -> ReplyView {
        match self {
            Reply::Text(Ok(text)) => ReplyView::Text(Ok(text@)),
            Reply::Text(Err(report)) => ReplyView::Text(Err(report@)),
            Reply::Kind(Ok(kind)) => ReplyView::Kind(Ok(*kind)),
            Reply::Kind(Err(report)) => ReplyView::Kind(Err(report@)),
            Reply::Entries(Ok(entries)) => ReplyView::Entries(Ok(entries.deep_view())),
            Reply::Entries(Err(report)) => ReplyView::Entries(Err(report@)),
        }
    }
}

/// An error that was reported and did not end the merge: the path that
/// could not be loaded, and why.
#[derive(Debug)]
pub struct Report {
    pub path: String,
    pub error: Error,
}

/// What a [`Report`] holds.
pub struct ReportView {
    pub path: Seq<char>,
    pub error: ErrorView,
}

impl DeepView for Report {
    type V = ReportView;

    open spec fn deep_view(&self) -> ReportView {
        ReportView { path: self.path@, error: self.error.deep_view() }
    }
}

/// A merge under way.
#[derive(Debug)]
pub struct Merger {
    pub(crate) config: FontConfig,
    pub(crate) xdg: String,
    pub(crate) stack: Vec<Frame>,
    pub(crate) waiting: Waiting,
    pub(crate) reports: Vec<Report>,
    pub(crate) failure: Option<Error>,
}

/// What a [`Merger`] holds: the configuration so far, the base directory of
/// the user's data, the work still to do with the innermost file last, what
/// the merger is waiting to hear, the errors reported so far, and the error
/// of the file that the caller named, if it had one.
pub struct MergerView {
    pub config: FontConfigView,
    pub xdg: Seq<char>,
    pub stack: Seq<FrameView>,
    pub waiting: WaitingView,
    pub reports: Seq<ReportView>,
    pub failure: Option<ErrorView>,
}

impl DeepView for Merger {
    type V = MergerView;

    closed spec fn deep_view(&self) -> MergerView {
        MergerView {
            config: self.config.deep_view(),
            xdg: self.xdg@,
            stack: self.stack.deep_view(),
            waiting: self.waiting.deep_view(),
            reports: self.reports.deep_view(),
            failure: self.failure.deep_view(),
        }
    }
}

/// The most frames that the stack of a merger holds: files and directories
/// that include one another are followed this deep and no deeper.
pub const MAX_NESTING: usize = 64;

/// Whether the file `path` is being merged already: whether it is one of
/// the files whose parts are on the stack.
pub open spec fn in_chain(stack: Seq<FrameView>, path: Seq<char>) -> bool {
    exists|i: int| 0 <= i < stack.len() && (#[trigger] stack[i]).merges(path)
}

/// How many items the innermost frame of `stack` still has to do.
pub open spec fn top_rest(stack: Seq<FrameView>) -> nat {
    if stack.len() > 0 {
        stack.last().rest_len()
    } else {
        0
    }
}

impl MergerView {
    /// The merger after `path` could not be loaded because of `error`,
    /// under `policy`: the error of the file that the caller named is kept as
    /// the result, a loud one is reported, and a quiet one is dropped.
    pub open spec fn failed(self, policy: Policy, path: Seq<char>, error: ErrorView) -> MergerView {
        match policy {
            Policy::Root => MergerView { failure: Some(error), ..self },
            Policy::Loud => MergerView {
                reports: self.reports.push(ReportView { path, error }),
                ..self
            },
            Policy::Quiet => self,
        }
    }

    /// Going on with the work on the stack until the caller has to look at
    /// something, or nothing is left to do.
    ///
    /// The parts of the innermost file are folded in one after another. An
    /// include stops the work: the caller is to find out what its resolved
    /// path names. A file whose parts are done leaves the stack, and the error
    /// that ended it, if any, is dealt with under the file's policy. The next
    /// file of a directory is asked for, unless it is being merged already or
    /// the stack is full.
    pub open spec fn run(self) -> (MergerView, RequestView)
        decreases self.stack.len(), top_rest(self.stack),
    {
        if self.stack.len() == 0 {
            (MergerView { waiting: WaitingView::Nothing, ..self }, RequestView::Done)
        } else {
            let below = self.stack.drop_last();
            match self.stack.last() {
                FrameView::Parts { file, rest, failure, policy } => if rest.len() == 0 {
                    let popped = MergerView { stack: below, ..self };
                    match failure {
                        Some(error) => popped.failed(policy, file, error).run(),
                        None => popped.run(),
                    }
                } else {
                    let stack = below.push(
                        FrameView::Parts { file, rest: rest.skip(1), failure, policy },
                    );
                    match rest[0] {
                        ConfigPartView::Include(wanted) => {
                            let path = resolved(wanted.prefix, wanted.path, file, self.xdg);
                            (
                                MergerView {
                                    stack,
                                    waiting: WaitingView::Kind {
                                        path,
                                        loud: !wanted.ignore_missing,
                                    },
                                    ..self
                                },
                                RequestView::Inspect(path),
                            )
                        },
                        part => (MergerView {
                            stack,
                            config: self.config.with_part(part, file, self.xdg),
                            ..self
                        }).run(),
                    }
                },
                FrameView::Files { dir, rest } => if rest.len() == 0 {
                    (MergerView { stack: below, ..self }).run()
                } else {
                    let stack = below.push(FrameView::Files { dir, rest: rest.skip(1) });
                    let path = joined(dir, rest[0]);
                    if in_chain(stack, path) || stack.len() >= MAX_NESTING {
                        (MergerView { stack, ..self }).run()
                    } else {
                        (
                            MergerView {
                                stack,
                                waiting: WaitingView::Text { file: path, policy: Policy::Quiet },
                                ..self
                            },
                            RequestView::Read(path),
                        )
                    }
                },
            }
        }
    }

    /// What the merger asks for while it waits.
    pub open spec fn standing_request(self) -> RequestView {
        match self.waiting {
            WaitingView::Nothing => RequestView::Done,
            WaitingView::Text { file, .. } => RequestView::Read(file),
            WaitingView::Kind { path, .. } => RequestView::Inspect(path),
            WaitingView::Entries { path, .. } => RequestView::List(path),
        }
    }

    /// Taking in what the caller found: the merger after it, and the request
    /// that follows at once, if one does.
    ///
    /// The text of a file is read into its parts, which go on the stack; text
    /// that cannot be read, or makes no document, fails the file under its
    /// policy. A path that names a file is asked for, unless that file is
    /// being merged already, which fails it. A path that names a directory has
    /// its entries asked for, and they go on the stack in the order in which
    /// they are loaded. Neither is followed where the stack holds
    /// [`MAX_NESTING`] frames already: that fails the path as nested too
    /// deeply. A path that names anything else is passed over. A
    /// failure of the file system fails the path under its policy. A reply
    /// that does not answer the request is not taken in: the request stands.
    pub open spec fn answered(self, reply: ReplyView) -> (MergerView, Option<RequestView>) {
        let idle = MergerView { waiting: WaitingView::Nothing, ..self };
        match (self.waiting, reply) {
            (WaitingView::Text { file, policy }, ReplyView::Text(Ok(text))) => match text_parts(
                text,
            ) {
                Err(error) => (idle.failed(policy, file, error), None),
                Ok(parts) => (
                    MergerView {
                        stack: idle.stack.push(
                            FrameView::Parts {
                                file,
                                rest: parts.parts,
                                failure: parts.failure,
                                policy,
                            },
                        ),
                        ..idle
                    },
                    None,
                ),
            },
            (WaitingView::Text { file, policy }, ReplyView::Text(Err(report))) => (
                idle.failed(policy, file, ErrorView::Io(report)),
                None,
            ),
            (WaitingView::Kind { path, loud }, ReplyView::Kind(Ok(kind))) => match kind {
                EntryKind::File => if in_chain(self.stack, path) {
                    (idle.failed(policy_of(loud), path, ErrorView::IncludeCycle(path)), None)
                } else if self.stack.len() >= MAX_NESTING {
                    (idle.failed(policy_of(loud), path, ErrorView::IncludeTooDeep(path)), None)
                } else {
                    (
                        MergerView {
                            waiting: WaitingView::Text { file: path, policy: policy_of(loud) },
                            ..self
                        },
                        Some(RequestView::Read(path)),
                    )
                },
                EntryKind::Dir => if self.stack.len() >= MAX_NESTING {
                    (idle.failed(policy_of(loud), path, ErrorView::IncludeTooDeep(path)), None)
                } else {
                    (
                        MergerView { waiting: WaitingView::Entries { path, loud }, ..self },
                        Some(RequestView::List(path)),
                    )
                },
                _ => (idle, None),
            },
            (WaitingView::Kind { path, loud }, ReplyView::Kind(Err(report))) => (
                idle.failed(policy_of(loud), path, ErrorView::Io(report)),
                None,
            ),
            (WaitingView::Entries { path, loud }, ReplyView::Entries(Ok(entries))) => (
                MergerView {
                    stack: idle.stack.push(
                        FrameView::Files { dir: path, rest: load_order(entries) },
                    ),
                    ..idle
                },
                None,
            ),
            (WaitingView::Entries { path, loud }, ReplyView::Entries(Err(report))) => (
                idle.failed(policy_of(loud), path, ErrorView::Io(report)),
                None,
            ),
            _ => (self, Some(self.standing_request())),
        }
    }

    /// One step of the merge: what the caller found is taken in, and the
    /// work goes on until the caller has to look at something again.
    pub open spec fn step(self, reply: ReplyView) -> (MergerView, RequestView) {
        let (next, request) = self.answered(reply);
        match request {
            Some(request) => (next, request),
            None => next.run(),
        }
    }

    /// The merger at the start of merging the file `path` into `config`.
    pub open spec fn start(config: FontConfigView, path: Seq<char>, xdg: Seq<char>) -> MergerView {
        MergerView {
            config,
            xdg,
            stack: Seq::empty(),
            waiting: WaitingView::Text { file: path, policy: Policy::Root },
            reports: Seq::empty(),
            failure: None,
        }
    }
}

/// The configuration `config` with the parts `parts` of the file `file`
/// folded in, one after another in their order.
pub open spec fn folded(
    config: FontConfigView,
    parts: Seq<ConfigPartView>,
    file: Seq<char>,
    xdg: Seq<char>,
) -> FontConfigView
    decreases parts.len(),
{
    if parts.len() == 0 {
        config
    } else {
        folded(config.with_part(parts[0], file, xdg), parts.skip(1), file, xdg)
    }
}

/// Whether none of the parts is an include.
pub open spec fn no_includes(parts: Seq<ConfigPartView>) -> bool {
    forall|i: int| 0 <= i < parts.len() ==> !((#[trigger] parts[i]) is Include)
}

/// The parts of a file are folded in in document order: where the parts
/// still to do of the innermost file hold no include, the work goes on as if
/// all of them had been folded in, one after another.
pub proof fn lemma_parts_fold_in_order(m: MergerView)
    requires
        m.stack.len() > 0,
        m.stack.last() is Parts,
        no_includes(m.stack.last()->Parts_rest),
    ensures
        m.run() == (MergerView {
            stack: m.stack.drop_last().push(
                FrameView::Parts {
                    file: m.stack.last()->Parts_file,
                    rest: Seq::empty(),
                    failure: m.stack.last()->Parts_failure,
                    policy: m.stack.last()->Parts_policy,
                },
            ),
            config: folded(
                m.config,
                m.stack.last()->Parts_rest,
                m.stack.last()->Parts_file,
                m.xdg,
            ),
            ..m
        }).run(),
    decreases m.stack.last()->Parts_rest.len(),
{
    let below = m.stack.drop_last();
    let file = m.stack.last()->Parts_file;
    let rest = m.stack.last()->Parts_rest;
    let failure = m.stack.last()->Parts_failure;
    let policy = m.stack.last()->Parts_policy;
    if rest.len() == 0 {
        assert(rest =~= Seq::empty());
        assert(below.push(m.stack.last()) =~= m.stack);
    } else {
        let next = MergerView {
            stack: below.push(FrameView::Parts { file, rest: rest.skip(1), failure, policy }),
            config: m.config.with_part(rest[0], file, m.xdg),
            ..m
        };
        assert(!(rest[0] is Include));
        assert(m.run() == next.run());
        assert(next.stack.drop_last() =~= below);
        assert forall|i: int| 0 <= i < rest.skip(1).len() implies !((#[trigger] rest.skip(1)[i])
            is Include) by {
            assert(rest.skip(1)[i] == rest[i + 1]);
        }
        lemma_parts_fold_in_order(next);
    }
}

/// Merging a file that holds no include takes one look at the file system:
/// its parts are folded in in document order, up to the first element that
/// could not be read, whose error is then the result.
pub proof fn lemma_file_without_includes(
    config: FontConfigView,
    path: Seq<char>,
    xdg: Seq<char>,
    text: Seq<char>,
)
    requires
        text_parts(text) is Ok,
        no_includes(text_parts(text)->Ok_0.parts),
    ensures
        ({
            let parts = text_parts(text)->Ok_0;
            let (m, request) = MergerView::start(config, path, xdg).step(ReplyView::Text(Ok(text)));
            &&& request == RequestView::Done
            &&& m.config == folded(config, parts.parts, path, xdg)
            &&& m.failure == parts.failure
            &&& m.reports.len() == 0
            &&& m.stack.len() == 0
        }),
{
    let parts = text_parts(text)->Ok_0;
    let start = MergerView::start(config, path, xdg);
    let (taken, request) = start.answered(ReplyView::Text(Ok(text)));
    assert(request is None);
    let frame = FrameView::Parts {
        file: path,
        rest: parts.parts,
        failure: parts.failure,
        policy: Policy::Root,
    };
    assert(taken.stack =~= seq![frame]);
    lemma_parts_fold_in_order(taken);
    let done = FrameView::Parts {
        file: path,
        rest: Seq::empty(),
        failure: parts.failure,
        policy: Policy::Root,
    };
    let after = MergerView {
        stack: taken.stack.drop_last().push(done),
        config: folded(config, parts.parts, path, xdg),
        ..taken
    };
    assert(taken.run() == after.run());
    assert(after.stack =~= seq![done]);
    let popped = MergerView { stack: after.stack.drop_last(), ..after };
    assert(popped.stack =~= Seq::empty());
    match parts.failure {
        Some(error) => {
            let failed = popped.failed(Policy::Root, path, error);
            assert(after.run() == failed.run());
            assert(failed.stack.len() == 0);
        },
        None => {
            assert(after.run() == popped.run());
        },
    }
}

/// Whether the merger keeps to the bound on nesting: its stack holds no
/// more than [`MAX_NESTING`] frames, with room for one more where the merger
/// waits for what will make one.
pub open spec fn keeps_bound(m: MergerView) -> bool {
    &&& m.stack.len() <= MAX_NESTING
    &&& (m.waiting is Text || m.waiting is Entries) ==> m.stack.len() < MAX_NESTING
}

/// Going on with the work never makes the stack higher, and asks for a
/// file only where there is room for its parts.
pub proof fn lemma_run_keeps_bound(m: MergerView)
    requires
        m.stack.len() <= MAX_NESTING,
    ensures
        m.run().0.stack.len() <= m.stack.len(),
        keeps_bound(m.run().0),
    decreases m.stack.len(), top_rest(m.stack),
{
    if m.stack.len() > 0 {
        let below = m.stack.drop_last();
        match m.stack.last() {
            FrameView::Parts { file, rest, failure, policy } => {
                if rest.len() == 0 {
                    let popped = MergerView { stack: below, ..m };
                    match failure {
                        Some(error) => {
                            lemma_run_keeps_bound(popped.failed(policy, file, error));
                        },
                        None => {
                            lemma_run_keeps_bound(popped);
                        },
                    }
                } else {
                    let stack = below.push(
                        FrameView::Parts { file, rest: rest.skip(1), failure, policy },
                    );
                    match rest[0] {
                        ConfigPartView::Include(_) => {},
                        part => {
                            lemma_run_keeps_bound(
                                MergerView {
                                    stack,
                                    config: m.config.with_part(part, file, m.xdg),
                                    ..m
                                },
                            );
                        },
                    }
                }
            },
            FrameView::Files { dir, rest } => {
                if rest.len() == 0 {
                    lemma_run_keeps_bound(MergerView { stack: below, ..m });
                } else {
                    let stack = below.push(FrameView::Files { dir, rest: rest.skip(1) });
                    if in_chain(stack, joined(dir, rest[0])) || stack.len() >= MAX_NESTING {
                        lemma_run_keeps_bound(MergerView { stack, ..m });
                    }
                }
            },
        }
    }
}

/// However files and directories include one another, the stack of a
/// merge never holds more than [`MAX_NESTING`] frames: a merge starts within
/// the bound, and every step keeps it there.
pub proof fn lemma_nesting_is_bounded(m: MergerView, reply: ReplyView)
    requires
        keeps_bound(m),
    ensures
        keeps_bound(m.step(reply).0),
        forall|config: FontConfigView, path: Seq<char>, xdg: Seq<char>|
            keeps_bound(#[trigger] MergerView::start(config, path, xdg)),
{
    let (next, request) = m.answered(reply);
    if request is None {
        lemma_run_keeps_bound(next);
    }
}

/// Merging a file that holds nothing but a reset forgets the font
/// directories of the files merged before it and keeps everything else that
/// they gave: their cache directories, match rules, aliases and the rest.
pub proof fn lemma_reset_file_clears_only_dirs(
    config: FontConfigView,
    path: Seq<char>,
    xdg: Seq<char>,
    text: Seq<char>,
)
    requires
        text_parts(text) is Ok,
        text_parts(text)->Ok_0.parts == seq![ConfigPartView::ResetDirs],
        text_parts(text)->Ok_0.failure is None,
    ensures
        ({
            let (m, request) = MergerView::start(config, path, xdg).step(ReplyView::Text(Ok(text)));
            &&& request == RequestView::Done
            &&& m.failure is None
            &&& m.config == (FontConfigView { dirs: Seq::empty(), ..config })
        }),
{
    let parts = seq![ConfigPartView::ResetDirs];
    lemma_file_without_includes(config, path, xdg, text);
    assert(parts.skip(1) =~= Seq::empty());
    assert(folded(config, parts, path, xdg) == folded(
        config.with_part(ConfigPartView::ResetDirs, path, xdg),
        parts.skip(1),
        path,
        xdg,
    ));
}

/// An include stops the work on its file until the caller has found out
/// what its resolved path names, and it is loud unless it may be missing.
pub proof fn lemma_include_is_inspected(m: MergerView)
    requires
        m.stack.len() > 0,
        m.stack.last() is Parts,
        m.stack.last()->Parts_rest.len() > 0,
        m.stack.last()->Parts_rest[0] is Include,
    ensures
        ({
            let wanted = m.stack.last()->Parts_rest[0]->Include_0;
            let path = resolved(wanted.prefix, wanted.path, m.stack.last()->Parts_file, m.xdg);
            &&& m.run().1 == RequestView::Inspect(path)
            &&& m.run().0.waiting == WaitingView::Kind { path, loud: !wanted.ignore_missing }
            &&& m.run().0.config == m.config
            &&& m.run().0.reports == m.reports
            &&& m.run().0.failure == m.failure
        }),
{
}

/// A path that an include names and that the file system cannot find does
/// not end the merge. Where the include may be missing nothing is reported;
/// where it may not, the failure of the file system is reported. Either way
/// the configuration and the work still to do stay as they are, and the
/// merge goes on with the rest of the file that holds the include.
pub proof fn lemma_missing_include(m: MergerView, path: Seq<char>, loud: bool, report: Seq<char>)
    requires
        m.waiting == (WaitingView::Kind { path, loud }),
    ensures
        ({
            let (next, request) = m.answered(ReplyView::Kind(Err(report)));
            &&& request is None
            &&& next.config == m.config
            &&& next.stack == m.stack
            &&& next.failure == m.failure
            &&& !loud ==> next.reports == m.reports
            &&& loud ==> next.reports == m.reports.push(
                ReportView { path, error: ErrorView::Io(report) },
            )
            &&& m.step(ReplyView::Kind(Err(report))) == next.run()
        }),
{
}

/// What a merge came to.
#[derive(Debug)]
pub struct Merged {
    /// The configuration, with all that was folded in.
    pub config: FontConfig,
    /// The errors that were reported and did not end the merge.
    pub reports: Vec<Report>,
    /// The error of the file that the caller named, if it had one.
    pub result: Result<(), Error>,
}

/// The result of a merge that ended in `failure`, if it ended in one.
pub open spec fn result_of(failure: Option<ErrorView>) -> Result<(), ErrorView> {
    match failure {
        Some(error) => Err(error),
        None => Ok(()),
    }
}

/// Whether the file `path` is being merged already.
fn on_chain(stack: &Vec<Frame>, path: &str) -> (r: bool)
    ensures
        r == in_chain(stack.deep_view(), path@),
{
    let mut i: usize = 0;
    while i < stack.len()
        invariant
            i <= stack@.len(),
            forall|k: int| 0 <= k < i ==> !(#[trigger] stack.deep_view()[k]).merges(path@),
        decreases stack@.len() - i,
    {
        assert(stack.deep_view()[i as int] == stack@[i as int].deep_view());
        let hit = match &stack[i] {
            Frame::Parts { file, .. } => text_eq(file.as_str(), path),
            Frame::Files { .. } => false,
        };
        if hit {
            return true;
        }
        i += 1;
    }
    false
}

/// The policy for what an include loads.
fn policy_for(loud: bool) -> (r: Policy)
    ensures
        r == policy_of(loud),
{
    if loud {
        Policy::Loud
    } else {
        Policy::Quiet
    }
}

impl Merger {
    /// Starts merging the file `path` into `config`. `xdg` is the base
    /// directory of the user's data, for the paths with the prefix `xdg`. The
    /// first thing to do is to read the file.
    pub fn new(config: FontConfig, path: &str, xdg: &str) -> (r: (Merger, Request))
        ensures
            r.0.deep_view() == MergerView::start(config.deep_view(), path@, xdg@),
            r.1.deep_view() == RequestView::Read(path@),
    {
        let merger = Merger {
            config,
            xdg: String::from_str(xdg),
            stack: Vec::new(),
            waiting: Waiting::Text { file: String::from_str(path), policy: Policy::Root },
            reports: Vec::new(),
            failure: None,
        };
        proof {
            crate::views::lemma_empty(merger.stack);
            crate::views::lemma_empty(merger.reports);
        }
        (merger, Request::Read(String::from_str(path)))
    }

    /// Deals with the error of a path that could not be loaded.
    fn fail(self, policy: Policy, path: String, error: Error) -> (r: Merger)
        ensures
            r.deep_view() == self.deep_view().failed(policy, path@, error.deep_view()),
    {
        let mut merger = self;
        match policy {
            Policy::Root => {
                merger.failure = Some(error);
            },
            Policy::Loud => {
                let report = Report { path, error };
                let ghost before = merger.reports;
                let ghost pushed = report;
                merger.reports.push(report);
                proof {
                    lemma_pushed(before, merger.reports, pushed);
                }
            },
            Policy::Quiet => {},
        }
        merger
    }

    /// Goes on with the work on the stack.
    fn run(self) -> (r: (Merger, Request))
        ensures
            (r.0.deep_view(), r.1.deep_view()) == self.deep_view().run(),
    {
        let mut merger = self;
        loop
            invariant
                merger.deep_view().run() == self.deep_view().run(),
            decreases merger.stack@.len(), top_rest(merger.stack.deep_view()),
        {
            if merger.stack.len() == 0 {
                merger.waiting = Waiting::Nothing;
                return (merger, Request::Done);
            }
            let ghost before = merger.stack;
            let frame = merger.stack.pop().unwrap();
            proof {
                lemma_popped(before, merger.stack);
            }
            match frame {
                Frame::Parts { file, rest, failure, policy } => {
                    let mut rest = rest;
                    if rest.len() == 0 {
                        match failure {
                            Some(error) => {
                                merger = merger.fail(policy, file, error);
                            },
                            None => {},
                        }
                    } else {
                        let ghost parts = rest;
                        let part = rest.remove(0);
                        proof {
                            lemma_shifted(parts, rest);
                        }
                        match part {
                            ConfigPart::Include(wanted) => {
                                let path = wanted.calculate_path(
                                    file.as_str(),
                                    merger.xdg.as_str(),
                                );
                                let next = Frame::Parts { file, rest, failure, policy };
                                let ghost below = merger.stack;
                                let ghost pushed = next;
                                merger.stack.push(next);
                                proof {
                                    lemma_pushed(below, merger.stack, pushed);
                                }
                                let request = Request::Inspect(path.clone());
                                merger.waiting =
                                Waiting::Kind { path, loud: !wanted.ignore_missing };
                                return (merger, request);
                            },
                            part => {
                                merger.config.apply(part, file.as_str(), merger.xdg.as_str());
                                let next = Frame::Parts { file, rest, failure, policy };
                                let ghost below = merger.stack;
                                let ghost pushed = next;
                                merger.stack.push(next);
                                proof {
                                    lemma_pushed(below, merger.stack, pushed);
                                }
                            },
                        }
                    }
                },
                Frame::Files { dir, rest } => {
                    let mut rest = rest;
                    if rest.len() > 0 {
                        let ghost names = rest;
                        let name = rest.remove(0);
                        proof {
                            lemma_shifted(names, rest);
                        }
                        let path = join(dir.as_str(), name.as_str());
                        let next = Frame::Files { dir, rest };
                        let ghost below = merger.stack;
                        let ghost pushed = next;
                        merger.stack.push(next);
                        proof {
                            lemma_pushed(below, merger.stack, pushed);
                        }
                        if !on_chain(&merger.stack, path.as_str()) && merger.stack.len()
                            < MAX_NESTING {
                            let request = Request::Read(path.clone());
                            merger.waiting = Waiting::Text { file: path, policy: Policy::Quiet };
                            return (merger, request);
                        }
                    }
                },
            }
        }
    }

    /// What the merger asks for while it waits.
    fn standing(&self) -> (r: Request)
        ensures
            r.deep_view() == self.deep_view().standing_request(),
    {
        match &self.waiting {
            Waiting::Nothing => Request::Done,
            Waiting::Text { file, .. } => Request::Read(file.clone()),
            Waiting::Kind { path, .. } => Request::Inspect(path.clone()),
            Waiting::Entries { path, .. } => Request::List(path.clone()),
        }
    }

    /// Takes in what the caller found.
    fn answer(self, reply: Reply) -> (r: (Merger, Option<Request>))
        ensures
            (r.0.deep_view(), r.1.deep_view()) == self.deep_view().answered(reply.deep_view()),
    {
        let Merger { config, xdg, stack, waiting, reports, failure } = self;
        match (waiting, reply) {
            (Waiting::Text { file, policy }, Reply::Text(Ok(text))) => {
                let idle =
                Merger { config, xdg, stack, waiting: Waiting::Nothing, reports, failure };
                match parse_config_text(text.as_str()) {
                    Err(error) => (idle.fail(policy, file, error), None),
                    Ok(parts) => {
                        let mut next = idle;
                        let frame = Frame::Parts {
                            file,
                            rest: parts.parts,
                            failure: parts.failure,
                            policy,
                        };
                        let ghost below = next.stack;
                        let ghost pushed = frame;
                        next.stack.push(frame);
                        proof {
                            lemma_pushed(below, next.stack, pushed);
                        }
                        (next, None)
                    },
                }
            },
            (Waiting::Text { file, policy }, Reply::Text(Err(report))) => {
                let idle =
                Merger { config, xdg, stack, waiting: Waiting::Nothing, reports, failure };
                (idle.fail(policy, file, Error::Io(report)), None)
            },
            (Waiting::Kind { path, loud }, Reply::Kind(Ok(kind))) => {
                match kind {
                    EntryKind::File => {
                        if on_chain(&stack, path.as_str()) {
                            let idle = Merger {
                                config,
                                xdg,
                                stack,
                                waiting: Waiting::Nothing,
                                reports,
                                failure,
                            };
                            let error = Error::IncludeCycle(path.clone());
                            (idle.fail(policy_for(loud), path, error), None)
                        } else if stack.len() >= MAX_NESTING {
                            let idle = Merger {
                                config,
                                xdg,
                                stack,
                                waiting: Waiting::Nothing,
                                reports,
                                failure,
                            };
                            let error = Error::IncludeTooDeep(path.clone());
                            (idle.fail(policy_for(loud), path, error), None)
                        } else {
                            let request = Request::Read(path.clone());
                            (
                                Merger {
                                    config,
                                    xdg,
                                    stack,
                                    waiting: Waiting::Text { file: path, policy: policy_for(loud) },
                                    reports,
                                    failure,
                                },
                                Some(request),
                            )
                        }
                    },
                    EntryKind::Dir => {
                        if stack.len() >= MAX_NESTING {
                            let idle = Merger {
                                config,
                                xdg,
                                stack,
                                waiting: Waiting::Nothing,
                                reports,
                                failure,
                            };
                            let error = Error::IncludeTooDeep(path.clone());
                            (idle.fail(policy_for(loud), path, error), None)
                        } else {
                            let request = Request::List(path.clone());
                            (
                                Merger {
                                    config,
                                    xdg,
                                    stack,
                                    waiting: Waiting::Entries { path, loud },
                                    reports,
                                    failure,
                                },
                                Some(request),
                            )
                        }
                    },
                    _ => (
                        Merger { config, xdg, stack, waiting: Waiting::Nothing, reports, failure },
                        None,
                    ),
                }
            },
            (Waiting::Kind { path, loud }, Reply::Kind(Err(report))) => {
                let idle =
                Merger { config, xdg, stack, waiting: Waiting::Nothing, reports, failure };
                (idle.fail(policy_for(loud), path, Error::Io(report)), None)
            },
            (Waiting::Entries { path, loud }, Reply::Entries(Ok(entries))) => {
                let mut next = Merger {
                    config,
                    xdg,
                    stack,
                    waiting: Waiting::Nothing,
                    reports,
                    failure,
                };
                let frame = Frame::Files { dir: path, rest: order_entries(&entries) };
                let ghost below = next.stack;
                let ghost pushed = frame;
                next.stack.push(frame);
                proof {
                    lemma_pushed(below, next.stack, pushed);
                }
                (next, None)
            },
            (Waiting::Entries { path, loud }, Reply::Entries(Err(report))) => {
                let idle =
                Merger { config, xdg, stack, waiting: Waiting::Nothing, reports, failure };
                (idle.fail(policy_for(loud), path, Error::Io(report)), None)
            },
            (waiting, _) => {
                let same = Merger { config, xdg, stack, waiting, reports, failure };
                let request = same.standing();
                (same, Some(request))
            },
        }
    }

    /// Takes one step of the merge: takes in what the caller found for the
    /// last request, goes on with the work, and says what the caller is to
    /// do next. After [`Request::Done`] there is nothing left to do.
    pub fn advance(self, reply: Reply) -> (r: (Merger, Request))
        ensures
            (r.0.deep_view(), r.1.deep_view()) == self.deep_view().step(reply.deep_view()),
    {
        let (next, request) = self.answer(reply);
        match request {
            Some(request) => (next, request),
            None => next.run(),
        }
    }

    /// Ends the merge and hands out what it came to.
    pub fn finish(self) -> (r: Merged)
        ensures
            r.config.deep_view() == self.deep_view().config,
            r.reports.deep_view() == self.deep_view().reports,
            crate::views::outcome(r.result) == result_of(self.deep_view().failure),
    {
        Merged {
            config: self.config,
            reports: self.reports,
            result: match self.failure {
                Some(error) => Err(error),
                None => Ok(()),
            },
        }
    }
}

impl FontConfig {
    /// Starts merging the file `path` into this configuration. The caller
    /// does what the merger asks for, step by step, until the merger is done.
    pub fn merge_config(self, path: &str, xdg: &str) -> (r: (Merger, Request))
        ensures
            r.0.deep_view() == MergerView::start(self.deep_view(), path@, xdg@),
            r.1.deep_view() == RequestView::Read(path@),
    {
        Merger::new(self, path, xdg)
    }
}

} // verus!
