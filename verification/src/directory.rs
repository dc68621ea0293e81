//! What an inbound transfer does to the download directory.
//!
//! The directory is a map from names to contents. Each action of a [`crate::receiving`] transfer
//! that touches the disk changes it in a way that the report tells of, and nobody else changes it
//! meanwhile.

use crate::bulk;
use crate::file_transfer;
use crate::message::MessageView;
use crate::receiving;
use crate::receiving::{ActionView, PhaseView, ReceiverState, ReportView};
use crate::sending;
use crate::sending::SendReportView;
use crate::text;
use vstd::prelude::*;

verus! {

/// The contents of the files in a directory, by name.
pub type Directory = Map<Seq<char>, Seq<u8>>;

/// Whether an action can have turned one directory into another, by the report on it. A file is
/// only created where there is none. A write or a flush that failed leaves anything in the
/// temporary file `temp`, and the creation of it that failed may have left the file itself. A
/// failure of another action leaves the directory as it was.
pub open spec fn acted(
    temp: Seq<char>,
    before: Directory,
    action: ActionView,
    report: ReportView,
    after: Directory,
) -> bool {
    match (action, report) {
        (ActionView::CreateTemporary(name), ReportView::Done) => {
            &&& !before.contains_key(name)
            &&& after == before.insert(name, Seq::empty())
        },
        (ActionView::CreateTemporary(name), ReportView::Taken) => {
            &&& before.contains_key(name)
            &&& after == before
        },
        (ActionView::CreateTemporary(name), _) => {
            &&& !before.contains_key(name)
            &&& after.remove(name) == before
        },
        (ActionView::Write(bytes), ReportView::Done) => {
            &&& before.contains_key(temp)
            &&& after == before.insert(temp, before[temp] + bytes)
        },
        (ActionView::Flush, ReportView::Done) => after == before,
        (ActionView::Write(_), _) | (ActionView::Flush, _) => after.remove(temp) == before.remove(
            temp,
        ),
        (ActionView::Reserve(name), ReportView::Done) => {
            &&& !before.contains_key(name)
            &&& after == before.insert(name, Seq::empty())
        },
        (ActionView::Reserve(name), ReportView::Taken) => {
            &&& before.contains_key(name)
            &&& after == before
        },
        (ActionView::Publish { from, to }, ReportView::Done) => {
            &&& before.contains_key(from)
            &&& after == before.remove(from).insert(to, before[from])
        },
        (ActionView::RemoveReserved(name), ReportView::Done) => after == before.remove(name),
        (ActionView::RemoveTemporary(name), ReportView::Done) => after == before.remove(name),
        _ => after == before,
    }
}

/// Whether `dirs` are the directories that some reports went through: the first is there before the
/// transfer, and each report tells how the next came about.
pub open spec fn history(
    start: ReceiverState,
    reports: Seq<ReportView>,
    dirs: Seq<Directory>,
) -> bool
    decreases reports.len(),
{
    &&& dirs.len() == reports.len() + 1
    &&& reports.len() > 0 ==> {
        let earlier = reports.drop_last();
        &&& history(start, earlier, dirs.drop_last())
        &&& acted(
            bulk::temp_name_text(start.token),
            dirs[reports.len() - 1],
            start.asked(earlier),
            reports.last(),
            dirs.last(),
        )
    }
}

/// Whether a removal was done, or there was nothing to remove. Other actions are no removals.
pub open spec fn removal_done(before: Directory, action: ActionView, report: ReportView) -> bool {
    match action {
        ActionView::RemoveReserved(name) => report is Done || !before.contains_key(name),
        ActionView::RemoveTemporary(name) => report is Done || !before.contains_key(name),
        _ => true,
    }
}

/// Whether every removal that was asked for was done.
pub open spec fn removals_done(
    start: ReceiverState,
    reports: Seq<ReportView>,
    dirs: Seq<Directory>,
) -> bool
    decreases reports.len(),
{
    reports.len() > 0 ==> {
        let earlier = reports.drop_last();
        &&& removals_done(start, earlier, dirs.drop_last())
        &&& removal_done(dirs[reports.len() - 1], start.asked(earlier), reports.last())
    }
}

/// How the directory stands to the one before the transfer, phase by phase, while what is asked for
/// has not been done yet.
spec fn kept(
    state: ReceiverState,
    action: ActionView,
    written: Seq<u8>,
    first: Directory,
    now: Directory,
) -> bool {
    let temp = bulk::temp_name_text(state.token);
    match state.phase {
        PhaseView::Offer => action is Await && now == first && written.len() == 0,
        PhaseView::Declining(_) => action is Reply && now == first,
        PhaseView::Accepting(_) => action is Reply && now == first && written.len() == 0,
        PhaseView::Preparing(_) => action is MakeDirectory && now == first && written.len() == 0,
        PhaseView::Opening(_) => {
            &&& action == ActionView::CreateTemporary(temp)
            &&& now == first
            &&& written.len() == 0
        },
        PhaseView::Waiting(_) => {
            &&& action is Await
            &&& !first.contains_key(temp)
            &&& now == first.insert(temp, written)
        },
        PhaseView::Writing(_) => {
            &&& !first.contains_key(temp)
            &&& action matches ActionView::Write(bytes)
            &&& bytes.len() <= written.len()
            &&& written == written.take(written.len() - bytes.len()) + bytes
            &&& now == first.insert(temp, written.take(written.len() - bytes.len()))
        },
        PhaseView::Flushing(_) => {
            &&& action is Flush
            &&& !first.contains_key(temp)
            &&& now == first.insert(temp, written)
        },
        PhaseView::Reserving(t, taken) => {
            &&& action == ActionView::Reserve(state.published(t.name, taken))
            &&& taken ==> first.contains_key(t.name)
            &&& !first.contains_key(temp)
            &&& now == first.insert(temp, written)
        },
        PhaseView::Publishing(t, taken) => {
            let to = state.published(t.name, taken);
            &&& action == (ActionView::Publish { from: temp, to })
            &&& taken ==> first.contains_key(t.name)
            &&& !first.contains_key(temp)
            &&& !first.contains_key(to)
            &&& to != temp
            &&& now == first.insert(temp, written).insert(to, Seq::empty())
        },
        PhaseView::Withdrawing(_) => {
            &&& !first.contains_key(temp)
            &&& action matches ActionView::RemoveReserved(name)
            &&& !first.contains_key(name)
            &&& name != temp
            &&& now == first.insert(temp, written).insert(name, Seq::empty())
        },
        PhaseView::Discarding(_) => {
            &&& action == ActionView::RemoveTemporary(temp)
            &&& !first.contains_key(temp)
            &&& now.remove(temp) == first
        },
        PhaseView::Over => true,
    }
}

/// The temporary name is never one that a file is published under.
pub proof fn lemma_temporary_name_is_apart(state: ReceiverState, name: Seq<char>, taken: bool)
    requires
        file_transfer::safe_name(name),
    ensures
        state.published(name, taken) != bulk::temp_name_text(state.token),
{
    let full = state.published(name, taken);
    let digits = text::decimal(state.token as nat);
    text::lemma_decimal_is_digits(state.token as nat);
    reveal_strlit(".incoming-");
    assert(bulk::temp_name_text(state.token)[0] == '.');
    if taken {
        assert(full[0] == digits[0]);
    }
}

/// One report keeps the directory in step, brings back the first one where the transfer fails, and
/// adds the file where it finishes.
proof fn lemma_report_keeps_step(
    state: ReceiverState,
    action: ActionView,
    written: Seq<u8>,
    first: Directory,
    now: Directory,
    report: ReportView,
    after: Directory,
)
    requires
        state.sound(),
        kept(state, action, written, first, now),
        acted(bulk::temp_name_text(state.token), now, action, report, after),
        removal_done(now, action, report),
    ensures
        ({
            let (next, asked) = state.step(report);
            let all = match asked {
                ActionView::Write(bytes) => written + bytes,
                _ => written,
            };
            &&& kept(next, asked, all, first, after)
            &&& !(state.phase is Over) && asked is Fail ==> after == first
            &&& asked matches ActionView::Finish(name) ==> {
                &&& !first.contains_key(name)
                &&& after == first.insert(name, written)
                &&& state.phase matches PhaseView::Publishing(t, taken)
                &&& name == state.published(t.name, first.contains_key(t.name))
            }
        }),
{
    let temp = bulk::temp_name_text(state.token);
    match (state.phase, report) {
        (PhaseView::Opening(_), ReportView::Done) => {
            assert(written =~= Seq::empty());
            assert(after =~= first.insert(temp, written));
        },
        (PhaseView::Opening(_), _) => {},
        (PhaseView::Waiting(_), _) => {
            assert(after.remove(temp) =~= first);
            if let (_, ActionView::Write(bytes)) = state.step(report) {
                let all = written + bytes;
                assert(all.take(all.len() - bytes.len()) =~= written);
            }
        },
        (PhaseView::Writing(_), ReportView::Done) => {
            assert(after =~= first.insert(temp, written));
        },
        (PhaseView::Writing(_), _) => {
            assert(now.remove(temp) =~= first);
        },
        (PhaseView::Flushing(_), _) => {
            assert(now.remove(temp) =~= first);
        },
        (PhaseView::Reserving(t, taken), _) => {
            lemma_temporary_name_is_apart(state, t.name, taken);
            assert(now.remove(temp) =~= first);
        },
        (PhaseView::Publishing(t, taken), ReportView::Done) => {
            assert(after =~= first.insert(state.published(t.name, taken), written));
        },
        (PhaseView::Withdrawing(_), _) => {
            assert(after.remove(temp) =~= first);
        },
        (PhaseView::Discarding(_), _) => {
            assert(after =~= first);
        },
        _ => {},
    }
}

/// The directory has been in step with the transfer from the beginning.
proof fn lemma_directory_is_in_step(
    limit: u64,
    token: u64,
    reports: Seq<ReportView>,
    dirs: Seq<Directory>,
)
    requires
        history(receiving::beginning(limit, token), reports, dirs),
        removals_done(receiving::beginning(limit, token), reports, dirs),
    ensures
        ({
            let start = receiving::beginning(limit, token);
            let state = start.after(reports);
            &&& state.token == token
            &&& state.sound()
            &&& kept(state, start.asked(reports), start.written(reports), dirs[0], dirs.last())
        }),
    decreases reports.len(),
{
    let start = receiving::beginning(limit, token);
    if reports.len() > 0 {
        let earlier = reports.drop_last();
        let state = start.after(earlier);
        lemma_directory_is_in_step(limit, token, earlier, dirs.drop_last());
        receiving::lemma_soundness_is_kept(state, reports.last());
        lemma_report_keeps_step(
            state,
            start.asked(earlier),
            start.written(earlier),
            dirs[0],
            dirs[reports.len() - 1],
            reports.last(),
            dirs.last(),
        );
    }
}

/// A failed transfer leaves the directory as it was: when the failure is told, it holds exactly the
/// files that it held before the transfer, with the contents that they had.
pub proof fn lemma_failed_transfer_restores_the_directory(
    limit: u64,
    token: u64,
    reports: Seq<ReportView>,
    dirs: Seq<Directory>,
)
    requires
        history(receiving::beginning(limit, token), reports, dirs),
        removals_done(receiving::beginning(limit, token), reports, dirs),
        receiving::beginning(limit, token).asked(reports) is Fail,
        !(receiving::beginning(limit, token).after(reports.drop_last()).phase is Over),
    ensures
        dirs.last() == dirs[0],
{
    let start = receiving::beginning(limit, token);
    let earlier = reports.drop_last();
    lemma_directory_is_in_step(limit, token, earlier, dirs.drop_last());
    lemma_report_keeps_step(
        start.after(earlier),
        start.asked(earlier),
        start.written(earlier),
        dirs[0],
        dirs[reports.len() - 1],
        reports.last(),
        dirs.last(),
    );
}

/// A finished transfer adds one file and touches no other: it lies directly in the directory,
/// under a name that was free, and holds what the chunks that came hold. It has the name that was
/// offered, without any directories in front, or the alternate one if that name was taken.
pub proof fn lemma_finished_transfer_adds_the_file(
    limit: u64,
    token: u64,
    reports: Seq<ReportView>,
    dirs: Seq<Directory>,
)
    requires
        history(receiving::beginning(limit, token), reports, dirs),
        removals_done(receiving::beginning(limit, token), reports, dirs),
        receiving::beginning(limit, token).asked(reports) is Finish,
    ensures
        ({
            let published = receiving::beginning(limit, token).asked(reports)->Finish_0;
            let earlier = reports.drop_last();
            &&& receiving::stays_inside(published)
            &&& !dirs[0].contains_key(published)
            &&& dirs.last() == dirs[0].insert(
                published,
                file_transfer::payload(receiving::chunks(earlier)),
            )
            &&& receiving::messages(earlier)[0] matches MessageView::FileOffer { name, .. }
            &&& {
                let base = file_transfer::base_name(name);
                published == if dirs[0].contains_key(base) {
                    bulk::alternate_name_text(token, base)
                } else {
                    base
                }
            }
        }),
{
    let start = receiving::beginning(limit, token);
    let earlier = reports.drop_last();
    lemma_directory_is_in_step(limit, token, earlier, dirs.drop_last());
    lemma_report_keeps_step(
        start.after(earlier),
        start.asked(earlier),
        start.written(earlier),
        dirs[0],
        dirs[reports.len() - 1],
        reports.last(),
        dirs.last(),
    );
    receiving::lemma_only_whole_files_are_published(start.after(earlier), reports.last());
    receiving::lemma_published_file_is_whole(limit, token, earlier, reports.last());
}

/// What was sent is what is found: if what comes to a receiver is what a sender sends, and both
/// finish, the directory holds one more file, with exactly the bytes that the sender has read.
pub proof fn lemma_sent_file_is_found(
    limit: u64,
    token: u64,
    reports: Seq<ReportView>,
    dirs: Seq<Directory>,
    id: u32,
    name: Seq<char>,
    size: u64,
    chunk_size: usize,
    sent: Seq<SendReportView>,
    sent_last: SendReportView,
)
    requires
        history(receiving::beginning(limit, token), reports, dirs),
        removals_done(receiving::beginning(limit, token), reports, dirs),
        receiving::beginning(limit, token).asked(reports) is Finish,
        sending::starting(id, size, chunk_size).after(sent).step(sent_last).1 is Finish,
        receiving::messages(reports.drop_last()) == seq![
            MessageView::FileOffer { id, name, size },
        ] + sending::starting(id, size, chunk_size).sent(sent),
    ensures
        ({
            let base = file_transfer::base_name(name);
            let published = if dirs[0].contains_key(base) {
                bulk::alternate_name_text(token, base)
            } else {
                base
            };
            &&& receiving::beginning(limit, token).asked(reports) == ActionView::Finish(published)
            &&& dirs.last() == dirs[0].insert(
                published,
                sending::starting(id, size, chunk_size).read(sent),
            )
        }),
{
    let earlier = reports.drop_last();
    lemma_finished_transfer_adds_the_file(limit, token, reports, dirs);
    receiving::lemma_published_file_is_whole(limit, token, earlier, reports.last());
    receiving::lemma_file_crosses_intact(
        limit,
        token,
        earlier,
        reports.last(),
        id,
        name,
        size,
        chunk_size,
        sent,
        sent_last,
    );
}

} // verus!
