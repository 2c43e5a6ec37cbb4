//! The course of an export: which messages are written, and to which file.
use vstd::prelude::*;

use crate::record::Config;

verus! {

/// How many messages come between two reports of the progress.
pub const REPORT_INTERVAL: u64 = 99;

/// The state of an export.
pub struct YAML<'a> {
    pub config: &'a Config,
    /// The names of the conversation files that have been opened, in the order
    /// in which they were.
    pub files: Vec<String>,
    /// The row of the message that came last.
    pub current_message_row: i32,
    /// How many messages have been dealt with.
    pub current_message: u64,
}

/// The file that a message goes to.
#[derive(Clone, Copy, Debug, PartialEq, Eq, Structural)]
pub enum Destination {
    /// The file of the messages that belong to no conversation.
    Orphaned,
    /// The file that was opened with this index.
    Open(usize),
    /// A file that has to be opened first.
    Create,
}

/// What the course of an export depends on, of a message that comes.
pub struct Arrival {
    pub rowid: i32,
    pub is_tapback: bool,
    pub is_poll_vote: bool,
    pub is_poll_update: bool,
}

/// Where an export stands.
pub struct Progress {
    /// The row of the message that came last.
    pub row: int,
    /// How many messages have been dealt with.
    pub count: nat,
}

/// Reactions, votes and changes to polls are written with the messages that
/// they belong to, and not on their own.
pub open spec fn is_aside(is_tapback: bool, is_poll_vote: bool, is_poll_update: bool) -> bool {
    is_tapback || is_poll_vote || is_poll_update
}

impl Progress {
    /// Before any message has come; the number stands for no row.
    pub open spec fn start() -> Progress {
        Progress { row: -1, count: 0 }
    }

    /// When a message has come: one that comes over again is dealt with.
    pub open spec fn begun(self, rowid: int) -> Progress {
        if rowid == self.row {
            Progress { row: self.row, count: self.count + 1 }
        } else {
            Progress { row: rowid, count: self.count }
        }
    }

    /// When it is clear whether a message is written on its own: one that is
    /// not is dealt with.
    pub open spec fn selected(self, aside: bool) -> Progress {
        if aside {
            Progress { row: self.row, count: self.count + 1 }
        } else {
            self
        }
    }

    /// When a message has been written.
    pub open spec fn finished(self) -> Progress {
        Progress { row: self.row, count: self.count + 1 }
    }

    /// The number that is reported when a message has been written.
    pub open spec fn report(self) -> Option<u64> {
        if self.count % (REPORT_INTERVAL as nat) == 0 {
            Some(self.count as u64)
        } else {
            None
        }
    }

    /// After a message was dealt with, written or not.
    pub open spec fn after(self, message: Arrival) -> Progress {
        Progress { row: message.rowid as int, count: self.count + 1 }
    }

    /// Whether the message is written: it is not the message that came last
    /// over again, and it is written on its own.
    pub open spec fn writes(self, message: Arrival) -> bool {
        message.rowid != self.row && !message.aside()
    }
}

impl Arrival {
    /// Whether the message is not written on its own.
    pub open spec fn aside(self) -> bool {
        is_aside(self.is_tapback, self.is_poll_vote, self.is_poll_update)
    }
}

/// Where an export stands after these messages.
pub open spec fn progress_after(messages: Seq<Arrival>) -> Progress
    decreases messages.len(),
{
    if messages.len() == 0 {
        Progress::start()
    } else {
        progress_after(messages.drop_last()).after(messages.last())
    }
}

/// Names of which no two are the same.
pub open spec fn distinct(names: Seq<Seq<char>>) -> bool {
    forall|i: int, j: int| 0 <= i < j < names.len() ==> names[i] != names[j]
}

/// A message that belongs to the file `filename`, or to none, goes to
/// `destination` while the files with these names are open.
pub open spec fn goes_to(
    names: Seq<Seq<char>>,
    filename: Option<Seq<char>>,
    destination: Destination,
) -> bool {
    match filename {
        None => destination == Destination::Orphaned,
        Some(name) => match destination {
            Destination::Orphaned => false,
            Destination::Open(index) => index < names.len() && names[index as int] == name,
            Destination::Create => !names.contains(name),
        },
    }
}

/// The file names that are open after messages with these file names, in the
/// order in which they were opened; a message without a conversation has none.
pub open spec fn names_after(filenames: Seq<Option<Seq<char>>>) -> Seq<Seq<char>>
    decreases filenames.len(),
{
    if filenames.len() == 0 {
        Seq::empty()
    } else {
        let names = names_after(filenames.drop_last());
        match filenames.last() {
            Some(name) if !names.contains(name) => names.push(name),
            _ => names,
        }
    }
}

impl<'a> YAML<'a> {
    /// The names of the open files.
    pub open spec fn names(&self) -> Seq<Seq<char>> {
        self.files@.map_values(|file: String| file@)
    }

    /// Where the export stands.
    pub open spec fn progress(&self) -> Progress {
        Progress { row: self.current_message_row as int, count: self.current_message as nat }
    }

    /// No file name is open twice.
    pub open spec fn well_formed(&self) -> bool {
        distinct(self.names())
    }

    /// An export that has not begun.
    pub fn new(config: &'a Config) -> (res: Self)
        ensures
            res.config == config,
            res.well_formed(),
            res.names() == Seq::<Seq<char>>::empty(),
            res.progress() == Progress::start(),
            res.files@.len() == 0,
            res.current_message_row == -1,
            res.current_message == 0,
    {
        YAML { config, files: Vec::new(), current_message_row: -1, current_message: 0 }
    }

    /// A run over the messages begins; the files that are open stay open.
    pub fn start_run(&mut self)
        ensures
            final(self).progress() == Progress::start(),
            final(self).current_message_row == -1,
            final(self).current_message == 0,
            final(self).names() == old(self).names(),
            final(self).config == old(self).config,
    {
        self.current_message_row = -1;
        self.current_message = 0;
    }

    /// A message has come. Returns whether it is another one than the message
    /// that came last; one that comes over again is dealt with by this.
    pub fn begin_message(&mut self, rowid: i32) -> (fresh: bool)
        requires
            old(self).current_message < u64::MAX,
        ensures
            fresh == (rowid != old(self).progress().row),
            fresh == (rowid != old(self).current_message_row),
            final(self).current_message_row == rowid,
            final(self).current_message == old(self).current_message + if fresh { 0int } else { 1 },
            final(self).progress() == old(self).progress().begun(rowid as int),
            final(self).names() == old(self).names(),
            final(self).config == old(self).config,
    {
        if rowid == self.current_message_row {
            self.current_message = self.current_message + 1;
            return false;
        }
        self.current_message_row = rowid;
        true
    }

    /// Returns whether the message is written on its own; one that is not is
    /// dealt with by this.
    pub fn select_message(
        &mut self,
        is_tapback: bool,
        is_poll_vote: bool,
        is_poll_update: bool,
    ) -> (selected: bool)
        requires
            old(self).current_message < u64::MAX,
        ensures
            selected == !is_aside(is_tapback, is_poll_vote, is_poll_update),
            selected == (!is_tapback && !is_poll_vote && !is_poll_update),
            final(self).progress() == old(self).progress().selected(!selected),
            final(self).current_message_row == old(self).current_message_row,
            final(self).current_message == old(self).current_message + if selected {
                0int
            } else {
                1
            },
            final(self).names() == old(self).names(),
            final(self).config == old(self).config,
    {
        if is_tapback || is_poll_vote || is_poll_update {
            self.current_message = self.current_message + 1;
            return false;
        }
        true
    }

    /// The message has been written. Returns the progress where it is to be
    /// reported.
    pub fn finish_message(&mut self) -> (report: Option<u64>)
        requires
            old(self).current_message < u64::MAX,
        ensures
            final(self).progress() == old(self).progress().finished(),
            report == final(self).progress().report(),
            final(self).current_message_row == old(self).current_message_row,
            final(self).current_message == old(self).current_message + 1,
            report is Some <==> (old(self).current_message + 1) % 99 == 0,
            report is Some ==> report->0 == old(self).current_message + 1,
            final(self).names() == old(self).names(),
            final(self).config == old(self).config,
    {
        self.current_message = self.current_message + 1;
        if self.current_message % REPORT_INTERVAL == 0 {
            Some(self.current_message)
        } else {
            None
        }
    }

    /// The file that a message goes to, by the name of the file of its
    /// conversation, if it belongs to one.
    pub fn get_or_create_file(&self, filename: Option<&String>) -> (res: Destination)
        ensures
            goes_to(self.names(), filename.deep_view(), res),
            res is Orphaned <==> filename is None,
            res matches Destination::Open(index) ==> index < self.files@.len()
                && self.files@[index as int]@ == filename->0@,
            res is Create ==> forall|i: int|
                0 <= i < self.files@.len() ==> (#[trigger] self.files@[i])@ != filename->0@,
    {
        match filename {
            None => Destination::Orphaned,
            Some(name) => {
                let mut i: usize = 0;
                while i < self.files.len()
                    invariant
                        i <= self.files.len(),
                        filename.deep_view() == Some(name@),
                        forall|k: int| 0 <= k < i ==> (#[trigger] self.files@[k])@ != name@,
                        forall|k: int| 0 <= k < i ==> self.names()[k] != name@,
                    decreases self.files.len() - i,
                {
                    if self.files[i] == *name {
                        return Destination::Open(i);
                    }
                    i = i + 1;
                }
                Destination::Create
            },
        }
    }

    /// A file has been opened. Returns its index.
    pub fn file_created(&mut self, filename: String) -> (index: usize)
        requires
            old(self).well_formed(),
            !old(self).names().contains(filename@),
        ensures
            index == old(self).names().len(),
            final(self).names() == old(self).names().push(filename@),
            final(self).files@ == old(self).files@.push(filename),
            final(self).well_formed(),
            final(self).progress() == old(self).progress(),
            final(self).config == old(self).config,
    {
        let index = self.files.len();
        self.files.push(filename);
        proof {
            assert(self.names() =~= old(self).names().push(filename@));
        }
        index
    }
}

/// The steps of dealing with a message count it once, and it is written if and
/// only if all of them are taken.
pub proof fn law_steps_deal_with_message(progress: Progress, message: Arrival)
    ensures
        ({
            let begun = progress.begun(message.rowid as int);
            let selected = begun.selected(message.aside());
            if message.rowid == progress.row {
                begun == progress.after(message) && !progress.writes(message)
            } else if message.aside() {
                selected == progress.after(message) && !progress.writes(message)
            } else {
                selected.finished() == progress.after(message) && progress.writes(message)
            }
        }),
{
}

/// After a message has been written, the count is reported exactly where it is a
/// multiple of the interval.
pub proof fn law_reports(progress: Progress)
    requires
        progress.count <= u64::MAX,
    ensures
        progress.report() is Some <==> progress.count % 99 == 0,
        progress.report() is Some ==> progress.report()->0 == progress.count,
{
}

/// Every message that comes counts once, whatever becomes of it, and the row
/// of the last one is kept.
pub proof fn law_every_message_counts(messages: Seq<Arrival>)
    ensures
        progress_after(messages).count == messages.len(),
        progress_after(messages).row == if messages.len() == 0 {
            -1
        } else {
            messages.last().rowid as int
        },
    decreases messages.len(),
{
    if messages.len() > 0 {
        law_every_message_counts(messages.drop_last());
    }
}

/// A message that comes after others is written if and only if it has another
/// row than the one before it and is neither a reaction nor a vote nor a change
/// to a poll. The first message has none before it; its row only has to differ from
/// the number that stands for no row.
pub proof fn law_written_messages(messages: Seq<Arrival>, next: Arrival)
    ensures
        progress_after(messages).writes(next) <==> (if messages.len() == 0 {
            next.rowid != -1
        } else {
            next.rowid != messages.last().rowid
        }) && !next.is_tapback && !next.is_poll_vote && !next.is_poll_update,
{
    law_every_message_counts(messages);
}

/// There is one file that a message goes to.
pub proof fn law_one_destination(
    names: Seq<Seq<char>>,
    filename: Option<Seq<char>>,
    one: Destination,
    other: Destination,
)
    requires
        distinct(names),
        goes_to(names, filename, one),
        goes_to(names, filename, other),
    ensures
        one == other,
{
    if let Some(name) = filename {
        if let Destination::Open(i) = one {
            assert(names[i as int] == name);
            assert(names.contains(name));
        }
        if let Destination::Open(j) = other {
            assert(names[j as int] == name);
            assert(names.contains(name));
        }
    }
}

/// A file name is opened once: after that, messages with the same file name go
/// to that file, whatever else is opened.
pub proof fn law_same_file(
    before: Seq<Seq<char>>,
    name: Seq<char>,
    later: Seq<Seq<char>>,
    destination: Destination,
)
    requires
        before.push(name).is_prefix_of(later),
        distinct(later),
        goes_to(later, Some(name), destination),
    ensures
        destination matches Destination::Open(index) && index == before.len(),
{
    assert(before.push(name)[before.len() as int] == name);
    assert(later[before.len() as int] == name);
    assert(later.contains(name));
}

/// Each file name that a message has is opened once, and no file name besides:
/// the open file names are those of the messages so far, and no two of them are
/// the same.
pub proof fn law_one_file_for_each_name(filenames: Seq<Option<Seq<char>>>)
    ensures
        distinct(names_after(filenames)),
        forall|name: Seq<char>|
            #[trigger] names_after(filenames).contains(name) <==> filenames.contains(Some(name)),
    decreases filenames.len(),
{
    if filenames.len() > 0 {
        let before = filenames.drop_last();
        let names = names_after(before);
        let now = names_after(filenames);
        law_one_file_for_each_name(before);
        assert(filenames =~= before.push(filenames.last()));
        assert forall|name: Seq<char>| #[trigger] now.contains(name) implies filenames.contains(
            Some(name),
        ) by {
            if names.contains(name) {
                let i = choose|i: int| 0 <= i < before.len() && before[i] == Some(name);
                assert(filenames[i] == Some(name));
            } else {
                assert(now == names.push(name));
                assert(filenames[filenames.len() - 1] == Some(name));
            }
        }
        assert forall|name: Seq<char>| filenames.contains(Some(name)) implies #[trigger] now.contains(
            name,
        ) by {
            let i = choose|i: int| 0 <= i < filenames.len() && filenames[i] == Some(name);
            if i < before.len() {
                assert(before[i] == Some(name));
                assert(names.contains(name));
                let k = choose|k: int| 0 <= k < names.len() && names[k] == name;
                assert(now[k] == name);
            } else if names.contains(name) {
                assert(now == names);
            } else {
                assert(now == names.push(name));
                assert(now[names.len() as int] == name);
            }
        }
        if now.len() > names.len() {
            let name = now.last();
            assert(!names.contains(name));
            assert(distinct(now));
        }
    }
}

/// Asking where a message goes, and opening the file where it has to be
/// created, keeps the open file names those of the messages so far.
pub proof fn law_files_follow_messages(
    filenames: Seq<Option<Seq<char>>>,
    next: Option<Seq<char>>,
    destination: Destination,
)
    requires
        goes_to(names_after(filenames), next, destination),
    ensures
        names_after(filenames.push(next)) == (match (destination, next) {
            (Destination::Create, Some(name)) => names_after(filenames).push(name),
            _ => names_after(filenames),
        }),
{
    assert(filenames.push(next).drop_last() =~= filenames);
    if let Some(name) = next {
        if let Destination::Open(index) = destination {
            assert(names_after(filenames)[index as int] == name);
        }
    }
}

/// Messages with different file names go to files with different indices, and
/// none of them goes to the file of the messages without a conversation.
pub proof fn law_different_files(
    names: Seq<Seq<char>>,
    name: Seq<char>,
    index: usize,
    other: Seq<char>,
    other_index: usize,
)
    requires
        name != other,
        goes_to(names, Some(name), Destination::Open(index)),
        goes_to(names, Some(other), Destination::Open(other_index)),
    ensures
        index != other_index,
        !goes_to(names, Some(name), Destination::Orphaned),
{
}

} // verus!
