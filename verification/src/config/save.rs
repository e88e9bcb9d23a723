//! How the configuration file is replaced: the new one is written beside it,
//! and takes its place only once it is complete.

use vstd::prelude::*;

use crate::config::Config;
use crate::error::{Error, Failure};
use crate::text;

verus! {

/// What saving waits for.
#[derive(Debug)]
pub enum SaveStage {
    /// To know where the file is.
    Starting,
    /// Its directory to be made. The file beside it has this extension.
    MakingDirectory { extension: String },
    /// The text of the configuration.
    Serializing { extension: String },
    /// The file beside it to be created, for these contents.
    Creating { contents: String },
    /// The contents to be written to the file beside it.
    Writing,
    /// The file beside it to be on disk.
    Syncing,
    /// To know what is at the destination.
    Looking,
    /// The old file to be removed.
    Removing,
    /// The file beside it to be moved to the destination.
    Replacing,
    /// Nothing: the file is saved, or that failed.
    Ended,
}

pub enum SaveStageView {
    Starting,
    MakingDirectory { extension: Seq<char> },
    Serializing { extension: Seq<char> },
    Creating { contents: Seq<char> },
    Writing,
    Syncing,
    Looking,
    Removing,
    Replacing,
    Ended,
}

impl View for SaveStage {
    type V = SaveStageView;

    open spec fn view(&self) -> SaveStageView {
        match *self {
            SaveStage::Starting => SaveStageView::Starting,
            SaveStage::MakingDirectory { extension } => SaveStageView::MakingDirectory {
                extension: extension@,
            },
            SaveStage::Serializing { extension } => SaveStageView::Serializing {
                extension: extension@,
            },
            SaveStage::Creating { contents } => SaveStageView::Creating { contents: contents@ },
            SaveStage::Writing => SaveStageView::Writing,
            SaveStage::Syncing => SaveStageView::Syncing,
            SaveStage::Looking => SaveStageView::Looking,
            SaveStage::Removing => SaveStageView::Removing,
            SaveStage::Replacing => SaveStageView::Replacing,
            SaveStage::Ended => SaveStageView::Ended,
        }
    }
}

/// What happened.
#[derive(Debug)]
pub enum SaveEvent {
    /// How the path of the file is shown, whether it is one of a file in some
    /// directory, and the number of this process.
    Placed { path: String, in_directory: bool, process: u32 },
    /// The text of the configuration.
    Serialized { contents: String },
    /// Whether there is an old file, and whether moving a file replaces one.
    Looked { exists: bool, move_replaces: bool },
    /// What was to be done succeeded.
    Done,
    /// What was to be done failed.
    Failed(String),
}

pub enum SaveEventView {
    Placed { path: Seq<char>, in_directory: bool, process: u32 },
    Serialized { contents: Seq<char> },
    Looked { exists: bool, move_replaces: bool },
    Done,
    Failed(Seq<char>),
}

impl View for SaveEvent {
    type V = SaveEventView;

    open spec fn view(&self) -> SaveEventView {
        match *self {
            SaveEvent::Placed { path, in_directory, process } => SaveEventView::Placed {
                path: path@,
                in_directory,
                process,
            },
            SaveEvent::Serialized { contents } => SaveEventView::Serialized {
                contents: contents@,
            },
            SaveEvent::Looked { exists, move_replaces } => SaveEventView::Looked {
                exists,
                move_replaces,
            },
            SaveEvent::Done => SaveEventView::Done,
            SaveEvent::Failed(cause) => SaveEventView::Failed(cause@),
        }
    }
}

/// What to do next. Only `RemoveDestination` and `Replace` change what is at the
/// destination.
#[derive(Debug)]
pub enum SaveAction {
    MakeDirectory,
    /// Write the configuration down as text.
    Serialize,
    /// Create the file beside the destination, with this extension.
    CreateBeside { extension: String },
    /// Write these contents to the file beside the destination.
    WriteBeside { contents: String },
    /// Make sure that the file beside the destination is on disk.
    SyncBeside,
    LookAtDestination,
    /// Remove the old file.
    RemoveDestination,
    /// Move the file beside the destination to it.
    Replace,
    Finish,
    Fail(Error),
}

pub enum SaveActionView {
    MakeDirectory,
    Serialize,
    CreateBeside { extension: Seq<char> },
    WriteBeside { contents: Seq<char> },
    SyncBeside,
    LookAtDestination,
    RemoveDestination,
    Replace,
    Finish,
    Fail(Failure<Seq<char>>),
}

impl View for SaveAction {
    type V = SaveActionView;

    open spec fn view(&self) -> SaveActionView {
        match *self {
            SaveAction::MakeDirectory => SaveActionView::MakeDirectory,
            SaveAction::Serialize => SaveActionView::Serialize,
            SaveAction::CreateBeside { extension } => SaveActionView::CreateBeside {
                extension: extension@,
            },
            SaveAction::WriteBeside { contents } => SaveActionView::WriteBeside {
                contents: contents@,
            },
            SaveAction::SyncBeside => SaveActionView::SyncBeside,
            SaveAction::LookAtDestination => SaveActionView::LookAtDestination,
            SaveAction::RemoveDestination => SaveActionView::RemoveDestination,
            SaveAction::Replace => SaveActionView::Replace,
            SaveAction::Finish => SaveActionView::Finish,
            SaveAction::Fail(error) => SaveActionView::Fail(error@),
        }
    }
}

/// The events that can come in a stage.
pub open spec fn save_event_fits(stage: SaveStageView, event: SaveEventView) -> bool {
    match stage {
        SaveStageView::Starting => event is Placed,
        SaveStageView::Serializing { .. } => event is Serialized || event is Failed,
        SaveStageView::Looking => event is Looked,
        SaveStageView::Ended => false,
        _ => event is Done || event is Failed,
    }
}

/// The next stage, and what to do.
pub open spec fn next_save(stage: SaveStageView, event: SaveEventView) -> (
    SaveStageView,
    SaveActionView,
) {
    match event {
        SaveEventView::Placed { path, in_directory, process } => if in_directory {
            (
                SaveStageView::MakingDirectory {
                    extension: "tmp-"@ + text::decimal_text(process as nat),
                },
                SaveActionView::MakeDirectory,
            )
        } else {
            (
                SaveStageView::Ended,
                SaveActionView::Fail(Failure::ConfigPathWithoutParent(path)),
            )
        },
        SaveEventView::Serialized { contents } => match stage {
            SaveStageView::Serializing { extension } => (
                SaveStageView::Creating { contents },
                SaveActionView::CreateBeside { extension },
            ),
            _ => (SaveStageView::Ended, SaveActionView::Finish),
        },
        SaveEventView::Looked { exists, move_replaces } => if exists && !move_replaces {
            (SaveStageView::Removing, SaveActionView::RemoveDestination)
        } else {
            (SaveStageView::Replacing, SaveActionView::Replace)
        },
        SaveEventView::Done => match stage {
            SaveStageView::MakingDirectory { extension } => (
                SaveStageView::Serializing { extension },
                SaveActionView::Serialize,
            ),
            SaveStageView::Creating { contents } => (
                SaveStageView::Writing,
                SaveActionView::WriteBeside { contents },
            ),
            SaveStageView::Writing => (SaveStageView::Syncing, SaveActionView::SyncBeside),
            SaveStageView::Syncing => (SaveStageView::Looking, SaveActionView::LookAtDestination),
            SaveStageView::Removing => (SaveStageView::Replacing, SaveActionView::Replace),
            _ => (SaveStageView::Ended, SaveActionView::Finish),
        },
        SaveEventView::Failed(cause) => (
            SaveStageView::Ended,
            SaveActionView::Fail(Failure::Reported(cause)),
        ),
    }
}

/// Saves a configuration: takes one event, and says what to do next.
pub fn save_step(stage: SaveStage, event: SaveEvent) -> (r: (SaveStage, SaveAction))
    requires
        save_event_fits(stage@, event@),
    ensures
        (r.0@, r.1@) == next_save(stage@, event@),
{
    match event {
        SaveEvent::Placed { path, in_directory, process } => match Config::save(
            path.as_str(),
            in_directory,
            process,
        ) {
            Ok(extension) => (
                SaveStage::MakingDirectory { extension },
                SaveAction::MakeDirectory,
            ),
            Err(error) => (SaveStage::Ended, SaveAction::Fail(error)),
        },
        SaveEvent::Serialized { contents } => match stage {
            SaveStage::Serializing { extension } => (
                SaveStage::Creating { contents },
                SaveAction::CreateBeside { extension },
            ),
            _ => (SaveStage::Ended, SaveAction::Finish),
        },
        SaveEvent::Looked { exists, move_replaces } => if exists && !move_replaces {
            (SaveStage::Removing, SaveAction::RemoveDestination)
        } else {
            (SaveStage::Replacing, SaveAction::Replace)
        },
        SaveEvent::Done => match stage {
            SaveStage::MakingDirectory { extension } => (
                SaveStage::Serializing { extension },
                SaveAction::Serialize,
            ),
            SaveStage::Creating { contents } => (
                SaveStage::Writing,
                SaveAction::WriteBeside { contents },
            ),
            SaveStage::Writing => (SaveStage::Syncing, SaveAction::SyncBeside),
            SaveStage::Syncing => (SaveStage::Looking, SaveAction::LookAtDestination),
            SaveStage::Removing => (SaveStage::Replacing, SaveAction::Replace),
            _ => (SaveStage::Ended, SaveAction::Finish),
        },
        SaveEvent::Failed(cause) => (SaveStage::Ended, SaveAction::Fail(Failure::Reported(cause))),
    }
}

/// The stage after all `events`.
pub open spec fn save_after(events: Seq<SaveEventView>) -> SaveStageView
    decreases events.len(),
{
    if events.len() == 0 {
        SaveStageView::Starting
    } else {
        next_save(save_after(events.drop_last()), events.last()).0
    }
}

/// What is done on the last of `events`.
pub open spec fn last_save_action(events: Seq<SaveEventView>) -> SaveActionView {
    next_save(save_after(events.drop_last()), events.last()).1
}

/// Each of the events can come when it comes.
pub open spec fn save_events_fit(events: Seq<SaveEventView>) -> bool
    decreases events.len(),
{
    events.len() > 0 ==> {
        &&& save_events_fit(events.drop_last())
        &&& save_event_fits(save_after(events.drop_last()), events.last())
    }
}

/// The action changes what is at the destination.
pub open spec fn touches_destination(action: SaveActionView) -> bool {
    action is Replace || action is RemoveDestination
}

/// The events up to a complete file beside the destination: the directory is
/// made, the configuration written down as `contents`, the file created, the
/// contents written and the file synced, all with success and in this order.
pub open spec fn completed_beside(events: Seq<SaveEventView>, contents: Seq<char>) -> bool {
    &&& events.len() == 6
    &&& events[0] is Placed && events[0]->in_directory
    &&& events[1] is Done
    &&& events[2] == (SaveEventView::Serialized { contents })
    &&& events[3] is Done
    &&& events[4] is Done
    &&& events[5] is Done
    &&& last_save_action(events.take(4)) == (SaveActionView::WriteBeside { contents })
    &&& last_save_action(events.take(5)) is SyncBeside
}

/// What is known of a stage that comes after the file beside it is complete.
proof fn lemma_looking(events: Seq<SaveEventView>)
    requires
        save_events_fit(events),
        save_after(events) is Looking,
    ensures
        exists|contents: Seq<char>| completed_beside(events, contents),
{
    let e5 = events.drop_last();
    assert(save_after(e5) is Syncing && events.last() is Done);
    let e4 = e5.drop_last();
    assert(save_events_fit(e5));
    assert(save_after(e4) is Writing && e5.last() is Done);
    let e3 = e4.drop_last();
    assert(save_events_fit(e4));
    assert(save_after(e3) is Creating && e4.last() is Done);
    let e2 = e3.drop_last();
    assert(save_events_fit(e3));
    assert(save_after(e2) is Serializing && e3.last() is Serialized);
    let contents = e3.last()->contents;
    assert(save_after(e3) == (SaveStageView::Creating { contents }));
    let e1 = e2.drop_last();
    assert(save_events_fit(e2));
    assert(save_after(e1) is MakingDirectory && e2.last() is Done);
    assert(save_events_fit(e1));
    assert(save_after(e1.drop_last()) is Starting);
    if e1.drop_last().len() > 0 {
        assert(save_events_fit(e1.drop_last()));
        assert(false);
    }
    assert(events.len() == 6);
    assert(events.take(4) =~= e4);
    assert(events.take(5) =~= e5);
    assert(events[5] == events.last() && events[4] == e5.last() && events[3] == e4.last());
    assert(events[2] == e3.last() && events[1] == e2.last() && events[0] == e1.last());
    assert(completed_beside(events, contents));
}

/// The destination is touched only once a complete file is beside it: whenever
/// an action touches it, the whole text of the configuration has been written
/// to the file beside it, and synced, with success. Before that, and on every
/// failure before that, the old file stays as it is.
pub proof fn law_destination_is_touched_last(events: Seq<SaveEventView>)
    requires
        save_events_fit(events),
        events.len() > 0,
        touches_destination(last_save_action(events)),
    ensures
        events.len() == 7 || events.len() == 8,
        exists|contents: Seq<char>| completed_beside(events.take(6), contents),
        events[6] is Looked,
{
    let before = events.drop_last();
    if events.last() is Looked {
        assert(save_after(before) is Looking);
        lemma_looking(before);
        assert(events.take(6) =~= before);
    } else {
        assert(save_after(before) is Removing && events.last() is Done);
        assert(save_events_fit(before));
        let earlier = before.drop_last();
        assert(before.last() is Looked);
        assert(save_after(earlier) is Looking);
        lemma_looking(earlier);
        assert(events.take(6) =~= earlier);
        assert(events[6] == before.last());
    }
}

/// Where moving a file replaces another, nothing but the replacement touches the
/// destination: the old file is there until the new one is. Elsewhere the old
/// one is removed right before it.
pub proof fn law_only_the_replacement_touches(stage: SaveStageView, event: SaveEventView)
    requires
        save_event_fits(stage, event),
        touches_destination(next_save(stage, event).1),
    ensures
        next_save(stage, event).1 is Replace || event == (SaveEventView::Looked {
            exists: true,
            move_replaces: false,
        }),
        next_save(stage, event).1 is RemoveDestination ==> next_save(
            next_save(stage, event).0,
            SaveEventView::Done,
        ).1 is Replace,
{
}

/// Saving ends well only with the replacement done.
pub proof fn law_saved_means_replaced(events: Seq<SaveEventView>)
    requires
        save_events_fit(events),
        events.len() > 0,
        last_save_action(events) is Finish,
    ensures
        events.last() is Done,
        events.len() > 1,
        last_save_action(events.drop_last()) is Replace,
{
    let before = events.drop_last();
    assert(save_after(before) is Replacing);
    assert(before.len() > 0);
    assert(save_events_fit(before));
}

/// The texts that the destination and the file beside it hold; none where there
/// is no file.
#[verifier::ext_equal]
pub struct Files {
    pub destination: Option<Seq<char>>,
    pub beside: Option<Seq<char>>,
}

/// What an action makes of the files, once it has succeeded. The move puts the
/// file beside the destination in its place.
pub open spec fn carried_out(files: Files, action: SaveActionView) -> Files {
    match action {
        SaveActionView::CreateBeside { extension } => Files {
            beside: Some(Seq::empty()),
            ..files
        },
        SaveActionView::WriteBeside { contents } => Files { beside: Some(contents), ..files },
        SaveActionView::RemoveDestination => Files { destination: None, ..files },
        SaveActionView::Replace => Files { destination: files.beside, beside: None },
        _ => files,
    }
}

/// The files after all `events`, where the destination held `old` at first: each
/// action that succeeded is carried out. A move or a removal that failed leaves
/// the destination as it was; what else fails never concerns it.
pub open spec fn files_after(events: Seq<SaveEventView>, old: Option<Seq<char>>) -> Files
    decreases events.len(),
{
    if events.len() <= 1 {
        Files { destination: old, beside: None }
    } else {
        let before = files_after(events.drop_last(), old);
        if events.last() is Done {
            carried_out(before, last_save_action(events.drop_last()))
        } else {
            before
        }
    }
}

/// Whenever the destination is looked at, a move replaces what is there.
pub open spec fn moves_replace(events: Seq<SaveEventView>) -> bool {
    forall|i: int|
        0 <= i < events.len() ==> ((#[trigger] events[i]) matches SaveEventView::Looked {
            exists,
            move_replaces,
        } ==> move_replaces)
}

/// The text of the configuration that is saved.
pub open spec fn saved_text(events: Seq<SaveEventView>) -> Seq<char> {
    events[2]->contents
}

/// What is known of the files and the last action in each stage.
spec fn save_on_track(events: Seq<SaveEventView>, old: Option<Seq<char>>) -> bool {
    let files = files_after(events, old);
    let action = last_save_action(events);
    match save_after(events) {
        SaveStageView::Starting => events.len() == 0,
        SaveStageView::MakingDirectory { extension } => events.len() == 1 && action
            is MakeDirectory && files.destination == old,
        SaveStageView::Serializing { extension } => events.len() == 2 && action is Serialize
            && files.destination == old,
        SaveStageView::Creating { contents } => events.len() == 3 && action is CreateBeside
            && events[2] == (SaveEventView::Serialized { contents }) && files.destination == old,
        SaveStageView::Writing => {
            &&& events.len() == 4
            &&& events[2] is Serialized
            &&& action == (SaveActionView::WriteBeside { contents: saved_text(events) })
            &&& files.destination == old
        },
        SaveStageView::Syncing => {
            &&& events.len() == 5
            &&& events[2] is Serialized
            &&& action is SyncBeside
            &&& files == (Files { destination: old, beside: Some(saved_text(events)) })
        },
        SaveStageView::Looking => {
            &&& events.len() == 6
            &&& events[2] is Serialized
            &&& action is LookAtDestination
            &&& files == (Files { destination: old, beside: Some(saved_text(events)) })
        },
        SaveStageView::Removing => {
            &&& events.len() == 7
            &&& events[2] is Serialized
            &&& action is RemoveDestination
            &&& !moves_replace(events)
            &&& files == (Files { destination: old, beside: Some(saved_text(events)) })
        },
        SaveStageView::Replacing => {
            &&& events.len() == 7 || events.len() == 8
            &&& events[2] is Serialized
            &&& action is Replace
            &&& files.beside == Some(saved_text(events))
            &&& moves_replace(events) ==> events.len() == 7 && files.destination == old
        },
        SaveStageView::Ended => {
            &&& action is Finish || action is Fail
            &&& action is Finish ==> events.len() > 2 && events[2] is Serialized
                && files.destination == Some(saved_text(events))
            &&& action is Fail && moves_replace(events) ==> files.destination == old
        },
    }
}

proof fn lemma_save_on_track(events: Seq<SaveEventView>, old: Option<Seq<char>>)
    requires
        save_events_fit(events),
    ensures
        save_on_track(events, old),
    decreases events.len(),
{
    if events.len() > 0 {
        let before = events.drop_last();
        lemma_save_on_track(before, old);
        assert(forall|i: int| 0 <= i < before.len() ==> before[i] == events[i]);
        assert(events.last() == events[events.len() - 1]);
        if moves_replace(events) {
            assert forall|i: int| 0 <= i < before.len() implies ((
            #[trigger] before[i]) matches SaveEventView::Looked { exists, move_replaces }
                ==> move_replaces) by {
                assert(before[i] == events[i]);
            }
        }
        if save_after(before) is Removing {
            let i = choose|i: int|
                0 <= i < before.len() && !((#[trigger] before[i]) matches SaveEventView::Looked {
                    exists,
                    move_replaces,
                } ==> move_replaces);
            assert(events[i] == before[i]);
        }
        if before.len() > 2 {
            assert(before[2] == events[2]);
        }
    }
}

/// The configuration file is replaced as a whole or not at all. Once saving ends
/// well, the destination holds exactly the text of the configuration. Where a
/// move replaces a file, it holds its old contents at any time before that, and
/// for good if saving fails.
pub proof fn law_file_is_replaced_as_a_whole(events: Seq<SaveEventView>, old: Option<Seq<char>>)
    requires
        save_events_fit(events),
        events.len() > 0,
    ensures
        last_save_action(events) is Finish ==> events.len() > 2 && events[2] is Serialized
            && files_after(events, old).destination == Some(saved_text(events)),
        moves_replace(events) && last_save_action(events) !is Finish ==> files_after(
            events,
            old,
        ).destination == old,
{
    lemma_save_on_track(events, old);
}

/// A save that failed did no harm to the old file, where a move replaces a file:
/// nothing removed it, and if the replacement was tried at all, it was tried once,
/// and it is what failed.
pub proof fn law_failed_save_leaves_the_old_file(events: Seq<SaveEventView>, i: int)
    requires
        save_events_fit(events),
        events.len() > 0,
        moves_replace(events),
        last_save_action(events) is Fail,
        0 < i <= events.len(),
    ensures
        last_save_action(events.take(i)) !is RemoveDestination,
        last_save_action(events.take(i)) is Replace ==> i == events.len() - 1 && events.last()
            is Failed,
{
    lemma_prefix_fits(events, i);
    let prefix = events.take(i);
    lemma_save_on_track(prefix, None);
    assert forall|k: int| 0 <= k < prefix.len() implies ((
    #[trigger] prefix[k]) matches SaveEventView::Looked { exists, move_replaces }
        ==> move_replaces) by {
        assert(prefix[k] == events[k]);
    }
    if last_save_action(prefix) is Replace {
        assert(save_after(prefix) is Replacing);
        assert(i < events.len()) by {
            assert(events.take(events.len() as int) =~= events);
        }
        lemma_prefix_fits(events, i + 1);
        let longer = events.take(i + 1);
        assert(longer.drop_last() =~= prefix);
        assert(save_after(longer) is Ended);
        if i + 1 < events.len() {
            lemma_prefix_fits(events, i + 2);
            assert(events.take(i + 2).drop_last() =~= longer);
            assert(false);
        }
        assert(longer =~= events);
    }
}

/// The events up to any point fit as well.
proof fn lemma_prefix_fits(events: Seq<SaveEventView>, i: int)
    requires
        save_events_fit(events),
        0 <= i <= events.len(),
    ensures
        save_events_fit(events.take(i)),
    decreases events.len(),
{
    if i == events.len() {
        assert(events.take(i) =~= events);
    } else {
        lemma_prefix_fits(events.drop_last(), i);
        assert(events.drop_last().take(i) =~= events.take(i));
    }
}

/// What a save does first, and what it writes: a path outside of any directory is
/// refused, and told; else the directory is made, the configuration written down,
/// and a file created whose extension is `tmp-` and the number of the process.
/// Every failure is told as it is.
pub proof fn law_save_goes_in_order(
    path: Seq<char>,
    process: u32,
    contents: Seq<char>,
    stage: SaveStageView,
    cause: Seq<char>,
)
    ensures
        ({
            let refused = next_save(
                SaveStageView::Starting,
                SaveEventView::Placed { path, in_directory: false, process },
            );
            let (placed, make) = next_save(
                SaveStageView::Starting,
                SaveEventView::Placed { path, in_directory: true, process },
            );
            let (made, serialize) = next_save(placed, SaveEventView::Done);
            let (serialized, create) = next_save(made, SaveEventView::Serialized { contents });
            let (created, write) = next_save(serialized, SaveEventView::Done);
            &&& refused == (
                SaveStageView::Ended,
                SaveActionView::Fail(Failure::ConfigPathWithoutParent(path)),
            )
            &&& make is MakeDirectory
            &&& serialize is Serialize
            &&& create == (SaveActionView::CreateBeside {
                extension: "tmp-"@ + text::decimal_text(process as nat),
            })
            &&& write == (SaveActionView::WriteBeside { contents })
            &&& next_save(stage, SaveEventView::Failed(cause)) == (
                SaveStageView::Ended,
                SaveActionView::Fail(Failure::Reported(cause)),
            )
        }),
{
}

/// Once the file beside it is complete, the destination is looked at, an old file
/// is removed if and only if it is in the way of a move, the move follows, and with
/// it the save ends.
pub proof fn law_replacement_goes_in_order(exists_there: bool, move_replaces: bool)
    ensures
        ({
            let (looking, look) = next_save(SaveStageView::Syncing, SaveEventView::Done);
            let (next, action) = next_save(
                looking,
                SaveEventView::Looked { exists: exists_there, move_replaces },
            );
            &&& next_save(SaveStageView::Writing, SaveEventView::Done) == (
                SaveStageView::Syncing,
                SaveActionView::SyncBeside,
            )
            &&& look is LookAtDestination
            &&& action is RemoveDestination <==> exists_there && !move_replaces
            &&& action !is RemoveDestination ==> action is Replace && next_save(
                next,
                SaveEventView::Done,
            ) == (SaveStageView::Ended, SaveActionView::Finish)
            &&& action is RemoveDestination ==> ({
                let (moving, move_it) = next_save(next, SaveEventView::Done);
                move_it is Replace && next_save(moving, SaveEventView::Done) == (
                    SaveStageView::Ended,
                    SaveActionView::Finish,
                )
            })
        }),
{
}

} // verus!
