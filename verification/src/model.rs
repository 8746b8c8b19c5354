//! What a merge comes to, said in one piece: the merge of a file is the
//! fold of its parts, and the parts that include other files are the merges
//! of those files. A [`Merger`](crate::merger::Merger) whose caller answers
//! from one file system comes to exactly this.

use vstd::prelude::*;
use crate::document::{ConfigPartView, FontConfigView};
use crate::entries::{load_order, DirEntryView, EntryKind};
use crate::error::ErrorView;
use crate::merger::{
    in_chain, policy_of, result_of, FrameView, MergerView, Policy, ReplyView, ReportView,
    RequestView, WaitingView, MAX_NESTING,
};
use crate::parser::text_parts;
use crate::paths::{joined, resolved};

verus! {

/// A file system, as far as a merge looks at it: the text of each file, the
/// kind of thing that each path names, and the entries of each directory, or
/// the report of why there is none.
pub struct FileSystem {
    pub texts: spec_fn(Seq<char>) -> Result<Seq<char>, Seq<char>>,
    pub kinds: spec_fn(Seq<char>) -> Result<EntryKind, Seq<char>>,
    pub listings: spec_fn(Seq<char>) -> Result<Seq<DirEntryView>, Seq<char>>,
}

impl FileSystem {
    /// What the caller finds when it does what `request` asks.
    pub open spec fn reply(self, request: RequestView) -> ReplyView {
        match request {
            RequestView::Read(path) => ReplyView::Text((self.texts)(path)),
            RequestView::Inspect(path) => ReplyView::Kind((self.kinds)(path)),
            RequestView::List(path) => ReplyView::Entries((self.listings)(path)),
            RequestView::Done => ReplyView::Kind(Ok(EntryKind::Other)),
        }
    }
}

/// The merger and its request after the caller has answered `steps` requests
/// from the file system `fs`, or fewer where the merge was over before.
pub open spec fn driven(fs: FileSystem, m: MergerView, request: RequestView, steps: nat) -> (
    MergerView,
    RequestView,
)
    decreases steps,
{
    if steps == 0 || request is Done {
        (m, request)
    } else {
        let (next, asked) = m.step(fs.reply(request));
        driven(fs, next, asked, (steps - 1) as nat)
    }
}

/// How far a merge has come: the configuration, and the errors reported.
pub struct Progress {
    pub config: FontConfigView,
    pub reports: Seq<ReportView>,
}

impl Progress {
    /// The progress after `path` was loaded with the result `result`: an
    /// error is reported where it is to be.
    pub open spec fn reported(
        self,
        loud: bool,
        path: Seq<char>,
        result: Result<(), ErrorView>,
    ) -> Progress {
        match result {
            Err(error) if loud => Progress {
                reports: self.reports.push(ReportView { path, error }),
                ..self
            },
            _ => self,
        }
    }
}

/// Merging the file `file`: its text is read and its parts are folded in.
/// `chain` holds the files that are being merged, outermost first, and
/// `depth` says how many files and directories are open around this one. A
/// file that lies deeper than [`MAX_NESTING`] is not read.
pub open spec fn merged_file(
    fs: FileSystem,
    now: Progress,
    chain: Seq<Seq<char>>,
    depth: nat,
    file: Seq<char>,
    xdg: Seq<char>,
) -> (Progress, Result<(), ErrorView>)
    decreases MAX_NESTING - depth, 0nat, 0nat,
{
    if depth >= MAX_NESTING {
        (now, Err(ErrorView::IncludeTooDeep(file)))
    } else {
        match (fs.texts)(file) {
            Err(report) => (now, Err(ErrorView::Io(report))),
            Ok(text) => match text_parts(text) {
                Err(error) => (now, Err(error)),
                Ok(parts) => merged_parts(
                    fs,
                    now,
                    chain.push(file),
                    depth + 1,
                    file,
                    parts.parts,
                    parts.failure,
                    xdg,
                ),
            },
        }
    }
}

/// Folding in the parts `parts` of the file `file`, in their order. An
/// include is loaded where it stands; its error is reported unless it may be
/// missing, and the parts after it are folded in all the same. After the
/// last part the result is the error `failure` that ended the reading of the
/// file, if there was one.
pub open spec fn merged_parts(
    fs: FileSystem,
    now: Progress,
    chain: Seq<Seq<char>>,
    depth: nat,
    file: Seq<char>,
    parts: Seq<ConfigPartView>,
    failure: Option<ErrorView>,
    xdg: Seq<char>,
) -> (Progress, Result<(), ErrorView>)
    decreases MAX_NESTING - depth, 2nat, parts.len(),
{
    if parts.len() == 0 {
        (now, result_of(failure))
    } else {
        match parts[0] {
            ConfigPartView::Include(wanted) => {
                let path = resolved(wanted.prefix, wanted.path, file, xdg);
                let (after, result) = included(fs, now, chain, depth, path, xdg);
                merged_parts(
                    fs,
                    after.reported(!wanted.ignore_missing, path, result),
                    chain,
                    depth,
                    file,
                    parts.skip(1),
                    failure,
                    xdg,
                )
            },
            part => merged_parts(
                fs,
                Progress { config: now.config.with_part(part, file, xdg), ..now },
                chain,
                depth,
                file,
                parts.skip(1),
                failure,
                xdg,
            ),
        }
    }
}

/// Loading what an include names. A file is merged, unless it is being
/// merged already, which is an error. The files and links of a directory are
/// merged in the order of their names, and their errors are dropped; the
/// directories inside it are not looked into. Neither is followed deeper
/// than [`MAX_NESTING`], which is an error too. Anything else is passed
/// over.
pub open spec fn included(
    fs: FileSystem,
    now: Progress,
    chain: Seq<Seq<char>>,
    depth: nat,
    path: Seq<char>,
    xdg: Seq<char>,
) -> (Progress, Result<(), ErrorView>)
    decreases MAX_NESTING - depth, 1nat, 0nat,
{
    match (fs.kinds)(path) {
        Err(report) => (now, Err(ErrorView::Io(report))),
        Ok(EntryKind::File) => if chain.contains(path) {
            (now, Err(ErrorView::IncludeCycle(path)))
        } else {
            merged_file(fs, now, chain, depth, path, xdg)
        },
        Ok(EntryKind::Dir) => if depth >= MAX_NESTING {
            (now, Err(ErrorView::IncludeTooDeep(path)))
        } else {
            match (fs.listings)(path) {
                Err(report) => (now, Err(ErrorView::Io(report))),
                Ok(entries) => (
                    merged_entries(fs, now, chain, depth + 1, path, load_order(entries), xdg),
                    Ok(()),
                ),
            }
        },
        Ok(_) => (now, Ok(())),
    }
}

/// Merging the files named `names` of the directory `dir`, in their order.
/// A file that is being merged already is passed over, and the error of a
/// file that cannot be merged is dropped: the files after it are merged all
/// the same.
pub open spec fn merged_entries(
    fs: FileSystem,
    now: Progress,
    chain: Seq<Seq<char>>,
    depth: nat,
    dir: Seq<char>,
    names: Seq<Seq<char>>,
    xdg: Seq<char>,
) -> Progress
    decreases MAX_NESTING - depth, 2nat, names.len(),
{
    if names.len() == 0 {
        now
    } else {
        let path = joined(dir, names[0]);
        let after = if chain.contains(path) {
            now
        } else {
            merged_file(fs, now, chain, depth, path, xdg).0
        };
        merged_entries(fs, after, chain, depth, dir, names.skip(1), xdg)
    }
}

/// What merging the file `path` into `config` comes to: the configuration
/// and the reports at the end, and the result.
pub open spec fn merged(
    fs: FileSystem,
    config: FontConfigView,
    path: Seq<char>,
    xdg: Seq<char>,
) -> (Progress, Result<(), ErrorView>) {
    merged_file(fs, Progress { config, reports: Seq::empty() }, Seq::empty(), 0, path, xdg)
}

/// The files whose parts are on the stack, outermost first.
pub open spec fn chain_of(stack: Seq<FrameView>) -> Seq<Seq<char>>
    decreases stack.len(),
{
    if stack.len() == 0 {
        Seq::empty()
    } else {
        match stack.last() {
            FrameView::Parts { file, .. } => chain_of(stack.drop_last()).push(file),
            FrameView::Files { .. } => chain_of(stack.drop_last()),
        }
    }
}

/// A file is being merged exactly where it is on the chain.
pub proof fn lemma_chain(stack: Seq<FrameView>, path: Seq<char>)
    ensures
        in_chain(stack, path) == chain_of(stack).contains(path),
    decreases stack.len(),
{
    if stack.len() == 0 {
    } else {
        let below = stack.drop_last();
        lemma_chain(below, path);
        if in_chain(stack, path) {
            let i = choose|i: int| 0 <= i < stack.len() && (#[trigger] stack[i]).merges(path);
            if i < stack.len() - 1 {
                assert(below[i] == stack[i]);
                assert(in_chain(below, path));
                let k = choose|k: int|
                    0 <= k < chain_of(below).len() && chain_of(below)[k] == path;
                match stack.last() {
                    FrameView::Parts { file, .. } => {
                        assert(chain_of(stack)[k] == path);
                    },
                    FrameView::Files { .. } => {},
                }
            } else {
                let file = stack.last()->Parts_file;
                assert(chain_of(stack).last() == path);
            }
        }
        if chain_of(stack).contains(path) {
            let k = choose|k: int| 0 <= k < chain_of(stack).len() && chain_of(stack)[k] == path;
            match stack.last() {
                FrameView::Parts { file, .. } => {
                    if k < chain_of(below).len() {
                        assert(chain_of(below)[k] == path);
                        assert(chain_of(below).contains(path));
                        let i = choose|i: int|
                            0 <= i < below.len() && (#[trigger] below[i]).merges(path);
                        assert(stack[i] == below[i]);
                    } else {
                        assert(stack[stack.len() - 1].merges(path));
                    }
                },
                FrameView::Files { .. } => {
                    assert(chain_of(below).contains(path));
                    let i = choose|i: int|
                        0 <= i < below.len() && (#[trigger] below[i]).merges(path);
                    assert(stack[i] == below[i]);
                },
            }
        }
    }
}

/// A frame on top of a stack adds its file to the chain, if it holds the
/// parts of one.
pub proof fn lemma_chain_push(stack: Seq<FrameView>, frame: FrameView)
    ensures
        chain_of(stack.push(frame)) == (match frame {
            FrameView::Parts { file, .. } => chain_of(stack).push(file),
            FrameView::Files { .. } => chain_of(stack),
        }),
{
    assert(stack.push(frame).drop_last() =~= stack);
}

/// Answering requests one after another is answering them all at once.
pub proof fn lemma_driven_adds(fs: FileSystem, m: MergerView, request: RequestView, a: nat, b: nat)
    ensures
        driven(fs, m, request, a + b) == driven(
            fs,
            driven(fs, m, request, a).0,
            driven(fs, m, request, a).1,
            b,
        ),
    decreases a,
{
    if a == 0 || request is Done {
        if request is Done && b > 0 {
            assert(driven(fs, m, request, b) == (m, request));
        }
    } else {
        let (next, asked) = m.step(fs.reply(request));
        lemma_driven_adds(fs, next, asked, (a - 1) as nat, b);
    }
}

/// The work on the stack does not depend on what the merger was waiting to
/// hear before.
pub proof fn lemma_run_forgets_waiting(m: MergerView, waiting: WaitingView)
    ensures
        (MergerView { waiting, ..m }).run() == m.run(),
    decreases m.stack.len(), crate::merger::top_rest(m.stack),
{
    let other = MergerView { waiting, ..m };
    if m.stack.len() > 0 {
        let below = m.stack.drop_last();
        match m.stack.last() {
            FrameView::Parts { file, rest, failure, policy } => {
                if rest.len() == 0 {
                    let popped = MergerView { stack: below, ..m };
                    match failure {
                        Some(error) => {
                            lemma_run_forgets_waiting(popped.failed(policy, file, error), waiting);
                            assert((MergerView { stack: below, ..other }).failed(
                                policy,
                                file,
                                error,
                            ) == (MergerView {
                                waiting,
                                ..popped.failed(policy, file, error)
                            }));
                        },
                        None => {
                            lemma_run_forgets_waiting(popped, waiting);
                        },
                    }
                } else {
                    let stack = below.push(
                        FrameView::Parts { file, rest: rest.skip(1), failure, policy },
                    );
                    assert(stack.last().rest_len() < rest.len());
                    match rest[0] {
                        ConfigPartView::Include(_) => {},
                        part => {
                            lemma_run_forgets_waiting(
                                MergerView {
                                    stack,
                                    config: m.config.with_part(part, file, m.xdg),
                                    ..m
                                },
                                waiting,
                            );
                        },
                    }
                }
            },
            FrameView::Files { dir, rest } => {
                if rest.len() == 0 {
                    lemma_run_forgets_waiting(MergerView { stack: below, ..m }, waiting);
                } else {
                    let stack = below.push(FrameView::Files { dir, rest: rest.skip(1) });
                    assert(stack.last().rest_len() < rest.len());
                    if in_chain(stack, joined(dir, rest[0])) || stack.len() >= MAX_NESTING {
                        lemma_run_forgets_waiting(MergerView { stack, ..m }, waiting);
                    }
                }
            },
        }
    }
}

/// How far the merger `m` has come.
pub open spec fn progress(m: MergerView) -> Progress {
    Progress { config: m.config, reports: m.reports }
}

/// The merger `m` with the work `stack` still to do, come as far as `now`,
/// and waiting for nothing.
pub open spec fn at(m: MergerView, stack: Seq<FrameView>, now: Progress) -> MergerView {
    MergerView {
        config: now.config,
        reports: now.reports,
        stack,
        waiting: WaitingView::Nothing,
        ..m
    }
}

/// The merger after `path` was loaded with the result `result` under
/// `policy`.
pub open spec fn concluded(
    m: MergerView,
    policy: Policy,
    path: Seq<char>,
    result: Result<(), ErrorView>,
) -> MergerView {
    match result {
        Err(error) => m.failed(policy, path, error),
        Ok(_) => m,
    }
}

/// A merger that waits for the text of a file comes, after some answers
/// from the file system, to where the merge of that file comes to, and goes
/// on from there with the work on its stack.
pub proof fn lemma_file_is_merged(
    fs: FileSystem,
    m: MergerView,
    file: Seq<char>,
    policy: Policy,
) -> (steps: nat)
    requires
        m.waiting == (WaitingView::Text { file, policy }),
        m.stack.len() < MAX_NESTING,
    ensures
        ({
            let (after, result) = merged_file(
                fs,
                progress(m),
                chain_of(m.stack),
                m.stack.len(),
                file,
                m.xdg,
            );
            driven(fs, m, RequestView::Read(file), steps) == concluded(
                at(m, m.stack, after),
                policy,
                file,
                result,
            ).run()
        }),
    decreases MAX_NESTING - m.stack.len(), 0nat, 0nat,
{
    let request = RequestView::Read(file);
    let (next, asked) = m.step(fs.reply(request));
    assert(driven(fs, m, request, 1) == driven(fs, next, asked, 0));
    match (fs.texts)(file) {
        Err(report) => 1,
        Ok(text) => match text_parts(text) {
            Err(error) => 1,
            Ok(parts) => {
                let frame = FrameView::Parts {
                    file,
                    rest: parts.parts,
                    failure: parts.failure,
                    policy,
                };
                let taken = MergerView {
                    stack: m.stack.push(frame),
                    waiting: WaitingView::Nothing,
                    ..m
                };
                assert((next, asked) == taken.run());
                lemma_chain_push(m.stack, frame);
                assert(taken.stack.drop_last() =~= m.stack);
                let more = lemma_parts_are_merged(fs, taken);
                lemma_driven_adds(fs, m, request, 1, more);
                1 + more
            },
        },
    }
}

/// A merger with the parts of a file on top of its stack comes, after some
/// answers from the file system, to where the fold of those parts comes to,
/// and goes on from there with the work below.
pub proof fn lemma_parts_are_merged(fs: FileSystem, m: MergerView) -> (steps: nat)
    requires
        m.stack.len() > 0,
        m.stack.last() is Parts,
    ensures
        ({
            let (after, result) = merged_parts(
                fs,
                progress(m),
                chain_of(m.stack),
                m.stack.len(),
                m.stack.last()->Parts_file,
                m.stack.last()->Parts_rest,
                m.stack.last()->Parts_failure,
                m.xdg,
            );
            driven(fs, m.run().0, m.run().1, steps) == concluded(
                at(m, m.stack.drop_last(), after),
                m.stack.last()->Parts_policy,
                m.stack.last()->Parts_file,
                result,
            ).run()
        }),
    decreases MAX_NESTING - m.stack.len(), 2nat, m.stack.last()->Parts_rest.len(),
{
    let below = m.stack.drop_last();
    let file = m.stack.last()->Parts_file;
    let rest = m.stack.last()->Parts_rest;
    let failure = m.stack.last()->Parts_failure;
    let policy = m.stack.last()->Parts_policy;
    let chain = chain_of(m.stack);
    assert(m.stack =~= below.push(m.stack.last()));
    lemma_chain_push(below, m.stack.last());
    if rest.len() == 0 {
        let popped = MergerView { stack: below, ..m };
        match failure {
            Some(error) => {
                lemma_run_forgets_waiting(popped.failed(policy, file, error), WaitingView::Nothing);
                assert(at(m, below, progress(m)).failed(policy, file, error) == (MergerView {
                    waiting: WaitingView::Nothing,
                    ..popped.failed(policy, file, error)
                }));
            },
            None => {
                lemma_run_forgets_waiting(popped, WaitingView::Nothing);
            },
        }
        0
    } else {
        let shorter = FrameView::Parts { file, rest: rest.skip(1), failure, policy };
        let stack = below.push(shorter);
        lemma_chain_push(below, shorter);
        assert(stack.drop_last() =~= below);
        match rest[0] {
            ConfigPartView::Include(wanted) => {
                let path = resolved(wanted.prefix, wanted.path, file, m.xdg);
                let loud = !wanted.ignore_missing;
                let asking = MergerView {
                    stack,
                    waiting: WaitingView::Kind { path, loud },
                    ..m
                };
                assert(m.run() == (asking, RequestView::Inspect(path)));
                let first = lemma_include_is_merged(fs, asking, path, loud);
                let (mid, found) = included(fs, progress(m), chain, m.stack.len(), path, m.xdg);
                let back = concluded(at(asking, stack, mid), policy_of(loud), path, found);
                assert(progress(back) == mid.reported(loud, path, found));
                assert(back.stack == stack);
                let more = lemma_parts_are_merged(fs, back);
                lemma_driven_adds(fs, asking, RequestView::Inspect(path), first, more);
                let (after, result) = merged_parts(
                    fs,
                    progress(m),
                    chain,
                    m.stack.len(),
                    file,
                    rest,
                    failure,
                    m.xdg,
                );
                assert(at(back, below, after) == at(m, below, after));
                first + more
            },
            part => {
                let next = MergerView {
                    stack,
                    config: m.config.with_part(part, file, m.xdg),
                    ..m
                };
                assert(m.run() == next.run());
                let more = lemma_parts_are_merged(fs, next);
                let (after, result) = merged_parts(
                    fs,
                    progress(m),
                    chain,
                    m.stack.len(),
                    file,
                    rest,
                    failure,
                    m.xdg,
                );
                assert(at(next, below, after) == at(m, below, after));
                more
            },
        }
    }
}

/// A merger that waits to hear what an include names comes, after some
/// answers from the file system, to where the loading of that include comes
/// to, and goes on from there with the work on its stack.
pub proof fn lemma_include_is_merged(
    fs: FileSystem,
    m: MergerView,
    path: Seq<char>,
    loud: bool,
) -> (steps: nat)
    requires
        m.waiting == (WaitingView::Kind { path, loud }),
    ensures
        ({
            let (after, result) = included(
                fs,
                progress(m),
                chain_of(m.stack),
                m.stack.len(),
                path,
                m.xdg,
            );
            driven(fs, m, RequestView::Inspect(path), steps) == concluded(
                at(m, m.stack, after),
                policy_of(loud),
                path,
                result,
            ).run()
        }),
    decreases MAX_NESTING - m.stack.len(), 1nat, 0nat,
{
    let request = RequestView::Inspect(path);
    let (next, asked) = m.step(fs.reply(request));
    assert(driven(fs, m, request, 1) == driven(fs, next, asked, 0));
    lemma_chain(m.stack, path);
    match (fs.kinds)(path) {
        Err(report) => 1,
        Ok(EntryKind::File) => {
            if chain_of(m.stack).contains(path) || m.stack.len() >= MAX_NESTING {
                1
            } else {
                let reading = MergerView {
                    waiting: WaitingView::Text { file: path, policy: policy_of(loud) },
                    ..m
                };
                assert((next, asked) == (reading, RequestView::Read(path)));
                let more = lemma_file_is_merged(fs, reading, path, policy_of(loud));
                lemma_driven_adds(fs, m, request, 1, more);
                let (after, result) = merged_file(
                    fs,
                    progress(m),
                    chain_of(m.stack),
                    m.stack.len(),
                    path,
                    m.xdg,
                );
                assert(at(reading, m.stack, after) == at(m, m.stack, after));
                1 + more
            }
        },
        Ok(EntryKind::Dir) => {
            if m.stack.len() >= MAX_NESTING {
                1
            } else {
                let listing = MergerView { waiting: WaitingView::Entries { path, loud }, ..m };
                let list = RequestView::List(path);
                assert((next, asked) == (listing, list));
                let (then, after_list) = listing.step(fs.reply(list));
                assert(driven(fs, listing, list, 1) == driven(fs, then, after_list, 0));
                lemma_driven_adds(fs, m, request, 1, 1);
                match (fs.listings)(path) {
                    Err(report) => {
                        assert(at(listing, m.stack, progress(m)) == at(m, m.stack, progress(m)));
                        2
                    },
                    Ok(entries) => {
                        let frame = FrameView::Files { dir: path, rest: load_order(entries) };
                        let taken = MergerView {
                            stack: m.stack.push(frame),
                            waiting: WaitingView::Nothing,
                            ..m
                        };
                        assert((then, after_list) == taken.run());
                        lemma_chain_push(m.stack, frame);
                        assert(taken.stack.drop_last() =~= m.stack);
                        let more = lemma_entries_are_merged(fs, taken);
                        lemma_driven_adds(fs, m, request, 2, more);
                        2 + more
                    },
                }
            }
        },
        Ok(_) => 1,
    }
}

/// A merger with the files of a directory on top of its stack comes, after
/// some answers from the file system, to where the merge of those files
/// comes to, and goes on from there with the work below.
pub proof fn lemma_entries_are_merged(fs: FileSystem, m: MergerView) -> (steps: nat)
    requires
        m.stack.len() > 0,
        m.stack.last() is Files,
    ensures
        driven(fs, m.run().0, m.run().1, steps) == at(
            m,
            m.stack.drop_last(),
            merged_entries(
                fs,
                progress(m),
                chain_of(m.stack),
                m.stack.len(),
                m.stack.last()->Files_dir,
                m.stack.last()->Files_rest,
                m.xdg,
            ),
        ).run(),
    decreases MAX_NESTING - m.stack.len(), 2nat, m.stack.last()->Files_rest.len(),
{
    let below = m.stack.drop_last();
    let dir = m.stack.last()->Files_dir;
    let rest = m.stack.last()->Files_rest;
    let chain = chain_of(m.stack);
    assert(m.stack =~= below.push(m.stack.last()));
    lemma_chain_push(below, m.stack.last());
    if rest.len() == 0 {
        lemma_run_forgets_waiting(MergerView { stack: below, ..m }, WaitingView::Nothing);
        0
    } else {
        let shorter = FrameView::Files { dir, rest: rest.skip(1) };
        let stack = below.push(shorter);
        lemma_chain_push(below, shorter);
        assert(stack.drop_last() =~= below);
        assert(stack.len() == m.stack.len());
        let path = joined(dir, rest[0]);
        lemma_chain(stack, path);
        let after = merged_entries(fs, progress(m), chain, m.stack.len(), dir, rest, m.xdg);
        if chain.contains(path) || m.stack.len() >= MAX_NESTING {
            let next = MergerView { stack, ..m };
            assert(m.run() == next.run());
            let more = lemma_entries_are_merged(fs, next);
            if !chain.contains(path) {
                assert(merged_file(fs, progress(m), chain, m.stack.len(), path, m.xdg).0
                    == progress(m));
            }
            assert(after == merged_entries(
                fs,
                progress(m),
                chain,
                m.stack.len(),
                dir,
                rest.skip(1),
                m.xdg,
            ));
            assert(at(next, below, after) == at(m, below, after));
            more
        } else {
            let reading = MergerView {
                stack,
                waiting: WaitingView::Text { file: path, policy: Policy::Quiet },
                ..m
            };
            assert(m.run() == (reading, RequestView::Read(path)));
            let first = lemma_file_is_merged(fs, reading, path, Policy::Quiet);
            let (mid, found) = merged_file(fs, progress(m), chain, m.stack.len(), path, m.xdg);
            let back = concluded(at(reading, stack, mid), Policy::Quiet, path, found);
            assert(back == at(reading, stack, mid));
            assert(after == merged_entries(
                fs,
                mid,
                chain,
                m.stack.len(),
                dir,
                rest.skip(1),
                m.xdg,
            ));
            let more = lemma_entries_are_merged(fs, back);
            lemma_driven_adds(fs, reading, RequestView::Read(path), first, more);
            assert(at(back, below, after) == at(m, below, after));
            first + more
        }
    }
}

/// A merge whose caller answers from one file system comes to its end after
/// some answers, whatever the files hold, and there it has come to what the
/// merge of the file comes to: the same configuration, the same reports, and
/// the same result.
pub proof fn lemma_merge_comes_to_the_model(
    fs: FileSystem,
    config: FontConfigView,
    path: Seq<char>,
    xdg: Seq<char>,
) -> (steps: nat)
    ensures
        ({
            let (after, result) = merged(fs, config, path, xdg);
            let (m, request) = driven(
                fs,
                MergerView::start(config, path, xdg),
                RequestView::Read(path),
                steps,
            );
            &&& request == RequestView::Done
            &&& m.stack.len() == 0
            &&& m.config == after.config
            &&& m.reports == after.reports
            &&& result_of(m.failure) == result
        }),
{
    let start = MergerView::start(config, path, xdg);
    assert(chain_of(start.stack) =~= Seq::empty());
    assert(progress(start) == Progress { config, reports: Seq::empty() });
    let steps = lemma_file_is_merged(fs, start, path, Policy::Root);
    let (after, result) = merged_file(
        fs,
        progress(start),
        chain_of(start.stack),
        start.stack.len(),
        path,
        xdg,
    );
    let end = concluded(at(start, start.stack, after), Policy::Root, path, result);
    assert(end.stack.len() == 0);
    assert(driven(fs, start, RequestView::Read(path), steps) == end.run());
    match result {
        Ok(done) => {
            assert(done == ());
        },
        Err(_) => {},
    }
    steps
}

} // verus!
