//! A whole run: what the files hold when the messages have been dealt with.
use vstd::prelude::*;

use crate::export::{
    distinct, goes_to, law_files_follow_messages, law_one_file_for_each_name,
    law_steps_deal_with_message, names_after, progress_after, Arrival, Destination, Progress,
};
use crate::header::{document_text, law_append_message};
use crate::record::{Chat, ExportInfo};
use crate::tree::{item_text, Node};

verus! {

/// A message that comes in a run.
pub struct Delivery {
    pub arrival: Arrival,
    /// The file name of its conversation, and the conversation, if it belongs
    /// to one.
    pub conversation: Option<(Seq<char>, Chat)>,
    /// What is written of it.
    pub message: Node,
}

impl Delivery {
    /// The file name of the conversation.
    pub open spec fn filename(self) -> Option<Seq<char>> {
        match self.conversation {
            Some((name, _)) => Some(name),
            None => None,
        }
    }
}

/// What has been written.
pub struct Files {
    /// The names of the conversation files, in the order in which they were
    /// opened.
    pub names: Seq<Seq<char>>,
    /// The text of each conversation file.
    pub texts: Seq<Seq<char>>,
    /// The text of the file of the messages that belong to no conversation.
    pub orphaned: Seq<char>,
}

impl Files {
    /// Before any message has been written there is one file, and no message
    /// in it.
    pub open spec fn start(info: ExportInfo) -> Files {
        Files {
            names: Seq::empty(),
            texts: Seq::empty(),
            orphaned: document_text(info, None, Seq::empty()),
        }
    }

    /// When a message has been written to its destination; a file that has to
    /// be created gets its header first.
    pub open spec fn after(
        self,
        info: ExportInfo,
        delivery: Delivery,
        destination: Destination,
    ) -> Files {
        let item = item_text(delivery.message, 2);
        match destination {
            Destination::Orphaned => Files { orphaned: self.orphaned + item, ..self },
            Destination::Open(index) => Files {
                texts: self.texts.update(index as int, self.texts[index as int] + item),
                ..self
            },
            Destination::Create => match delivery.conversation {
                Some((name, chat)) => Files {
                    names: self.names.push(name),
                    texts: self.texts.push(
                        document_text(info, Some(chat), Seq::empty()) + item,
                    ),
                    ..self
                },
                None => self,
            },
        }
    }
}

/// The file names of these messages.
pub open spec fn filenames(deliveries: Seq<Delivery>) -> Seq<Option<Seq<char>>> {
    deliveries.map_values(|delivery: Delivery| delivery.filename())
}

/// What the course of the run depends on, of these messages.
pub open spec fn arrivals(deliveries: Seq<Delivery>) -> Seq<Arrival> {
    deliveries.map_values(|delivery: Delivery| delivery.arrival)
}

/// What is written of the messages with this file name, or without one, in
/// order.
pub open spec fn nodes_of(written: Seq<Delivery>, filename: Option<Seq<char>>) -> Seq<Node>
    decreases written.len(),
{
    if written.len() == 0 {
        Seq::empty()
    } else {
        let before = nodes_of(written.drop_last(), filename);
        if written.last().filename() == filename {
            before.push(written.last().message)
        } else {
            before
        }
    }
}

/// The conversation of the first message with this file name.
pub open spec fn conversation_of(written: Seq<Delivery>, name: Seq<char>) -> Option<Chat>
    decreases written.len(),
{
    if written.len() == 0 {
        None
    } else {
        match conversation_of(written.drop_last(), name) {
            Some(chat) => Some(chat),
            None => match written.last().conversation {
                Some((other, chat)) => if other == name {
                    Some(chat)
                } else {
                    None
                },
                None => None,
            },
        }
    }
}

/// The files hold the messages that were written, and nothing else: there is a
/// file for each file name among them, and it is the document of the messages
/// with that file name, in order; so is the file of the messages without one.
pub open spec fn holds(info: ExportInfo, written: Seq<Delivery>, files: Files) -> bool {
    &&& files.names == names_after(filenames(written))
    &&& files.texts.len() == files.names.len()
    &&& forall|k: int|
        0 <= k < files.names.len() ==> #[trigger] files.texts[k] == document_text(
            info,
            conversation_of(written, files.names[k]),
            nodes_of(written, Some(files.names[k])),
        )
    &&& files.orphaned == document_text(info, None, nodes_of(written, None))
}

/// A file name that occurs has a conversation; one that does not has no
/// messages.
proof fn lemma_named(written: Seq<Delivery>, name: Seq<char>)
    ensures
        conversation_of(written, name) is Some <==> filenames(written).contains(Some(name)),
        !filenames(written).contains(Some(name)) ==> nodes_of(written, Some(name)) == Seq::<
            Node,
        >::empty(),
    decreases written.len(),
{
    if written.len() > 0 {
        let before = written.drop_last();
        let last = written.last();
        lemma_named(before, name);
        assert(filenames(written) =~= filenames(before).push(last.filename()));
        if filenames(before).contains(Some(name)) {
            let i = choose|i: int|
                0 <= i < filenames(before).len() && filenames(before)[i] == Some(name);
            assert(filenames(written)[i] == Some(name));
        }
        if last.filename() == Some(name) {
            assert(filenames(written)[written.len() - 1] == Some(name));
        }
    }
}

/// Writing a message to the file that it goes to keeps the files those of the
/// messages that were written.
pub proof fn law_written_message_is_held(
    info: ExportInfo,
    written: Seq<Delivery>,
    files: Files,
    next: Delivery,
    destination: Destination,
)
    requires
        holds(info, written, files),
        goes_to(files.names, next.filename(), destination),
    ensures
        holds(info, written.push(next), files.after(info, next, destination)),
{
    let now = written.push(next);
    let after = files.after(info, next, destination);
    assert(now.drop_last() =~= written);
    assert(filenames(now) =~= filenames(written).push(next.filename()));
    law_files_follow_messages(filenames(written), next.filename(), destination);
    law_one_file_for_each_name(filenames(written));
    assert(after.names == names_after(filenames(now)));
    law_append_message(info, None, nodes_of(written, None), next.message);
    assert(after.orphaned == document_text(info, None, nodes_of(now, None)));
    assert forall|k: int| 0 <= k < after.names.len() implies #[trigger] after.texts[k]
        == document_text(
        info,
        conversation_of(now, after.names[k]),
        nodes_of(now, Some(after.names[k])),
    ) by {
        let name = after.names[k];
        lemma_named(written, name);
        if k < files.names.len() {
            assert(files.names[k] == name);
            assert(names_after(filenames(written)).contains(name));
            assert(conversation_of(now, name) == conversation_of(written, name));
            assert(files.texts[k] == document_text(
                info,
                conversation_of(written, name),
                nodes_of(written, Some(name)),
            ));
            law_append_message(
                info,
                conversation_of(written, name),
                nodes_of(written, Some(name)),
                next.message,
            );
        } else {
            assert(!names_after(filenames(written)).contains(name));
            law_append_message(info, conversation_of(now, name), Seq::empty(), next.message);
        }
    }
}

/// Where a run stands.
pub struct Run {
    pub progress: Progress,
    pub files: Files,
}

impl Run {
    /// After a message has come: the steps that it takes, one after the other.
    /// Only a message that takes them all is written.
    pub open spec fn after(
        self,
        info: ExportInfo,
        delivery: Delivery,
        destination: Destination,
    ) -> Run {
        let arrival = delivery.arrival;
        let begun = self.progress.begun(arrival.rowid as int);
        let selected = begun.selected(arrival.aside());
        if arrival.rowid == self.progress.row {
            Run { progress: begun, ..self }
        } else if arrival.aside() {
            Run { progress: selected, ..self }
        } else {
            Run {
                progress: selected.finished(),
                files: self.files.after(info, delivery, destination),
            }
        }
    }
}

/// Where a run stands after these messages, when it began with these files and
/// each message that was written went to the destination with its index.
pub open spec fn run_after(
    info: ExportInfo,
    first: Files,
    deliveries: Seq<Delivery>,
    destinations: Seq<Destination>,
) -> Run
    decreases deliveries.len(),
{
    if deliveries.len() == 0 {
        Run { progress: Progress::start(), files: first }
    } else {
        run_after(info, first, deliveries.drop_last(), destinations).after(
            info,
            deliveries.last(),
            destinations[deliveries.len() - 1],
        )
    }
}

/// The message with index `i` is written.
pub open spec fn is_written(deliveries: Seq<Delivery>, i: int) -> bool {
    progress_after(arrivals(deliveries.take(i))).writes(deliveries[i].arrival)
}

/// The messages that are written, in order.
pub open spec fn written_of(deliveries: Seq<Delivery>) -> Seq<Delivery>
    decreases deliveries.len(),
{
    if deliveries.len() == 0 {
        Seq::empty()
    } else {
        let before = written_of(deliveries.drop_last());
        if is_written(deliveries, deliveries.len() - 1) {
            before.push(deliveries.last())
        } else {
            before
        }
    }
}

/// Each message that is written goes where it belongs while the files are open
/// that are open by then.
pub open spec fn well_directed(
    info: ExportInfo,
    first: Files,
    deliveries: Seq<Delivery>,
    destinations: Seq<Destination>,
) -> bool {
    &&& destinations.len() >= deliveries.len()
    &&& forall|i: int|
        0 <= i < deliveries.len() && is_written(deliveries, i) ==> goes_to(
            run_after(info, first, deliveries.take(i), destinations).files.names,
            deliveries[i].filename(),
            #[trigger] destinations[i],
        )
}

/// A run adds the messages that it writes to those that the files hold, and
/// counts all that come. The files may hold messages of earlier runs.
pub proof fn law_run_adds_messages(
    info: ExportInfo,
    earlier: Seq<Delivery>,
    first: Files,
    deliveries: Seq<Delivery>,
    destinations: Seq<Destination>,
)
    requires
        holds(info, earlier, first),
        well_directed(info, first, deliveries, destinations),
    ensures
        run_after(info, first, deliveries, destinations).progress == progress_after(
            arrivals(deliveries),
        ),
        holds(
            info,
            earlier + written_of(deliveries),
            run_after(info, first, deliveries, destinations).files,
        ),
    decreases deliveries.len(),
{
    if deliveries.len() == 0 {
        assert(earlier + written_of(deliveries) =~= earlier);
    } else {
        let last = deliveries.len() - 1;
        let before = deliveries.drop_last();
        let run = run_after(info, first, before, destinations);
        assert(deliveries.take(last) =~= before);
        assert(arrivals(deliveries).drop_last() =~= arrivals(before));
        assert forall|i: int| 0 <= i < before.len() && is_written(before, i) implies goes_to(
            run_after(info, first, before.take(i), destinations).files.names,
            before[i].filename(),
            #[trigger] destinations[i],
        ) by {
            assert(before.take(i) =~= deliveries.take(i));
            assert(is_written(deliveries, i));
        }
        law_run_adds_messages(info, earlier, first, before, destinations);
        law_steps_deal_with_message(run.progress, deliveries[last].arrival);
        if is_written(deliveries, last) {
            law_written_message_is_held(
                info,
                earlier + written_of(before),
                run.files,
                deliveries[last],
                destinations[last],
            );
            assert(earlier + written_of(deliveries) =~= (earlier + written_of(before)).push(
                deliveries[last],
            ));
        }
    }
}

/// After the first run, the file with index `k` is the document of the written
/// messages with its file name, in order, under the conversation of the first
/// of them; the file of the messages without a conversation is the document of
/// those. There is one file for each file name of a written message, and no
/// other.
pub proof fn law_whole_run(
    info: ExportInfo,
    deliveries: Seq<Delivery>,
    destinations: Seq<Destination>,
)
    requires
        well_directed(info, Files::start(info), deliveries, destinations),
    ensures
        ({
            let written = written_of(deliveries);
            let run = run_after(info, Files::start(info), deliveries, destinations);
            let files = run.files;
            &&& run.progress == progress_after(arrivals(deliveries))
            &&& files.texts.len() == files.names.len()
            &&& forall|k: int|
                0 <= k < files.names.len() ==> #[trigger] files.texts[k] == document_text(
                    info,
                    conversation_of(written, files.names[k]),
                    nodes_of(written, Some(files.names[k])),
                )
            &&& files.orphaned == document_text(info, None, nodes_of(written, None))
            &&& distinct(files.names)
            &&& forall|name: Seq<char>| #[trigger]
                files.names.contains(name) <==> filenames(written).contains(Some(name))
        }),
{
    let none = Seq::<Delivery>::empty();
    let written = written_of(deliveries);
    assert(filenames(none) =~= Seq::empty());
    assert(holds(info, none, Files::start(info)));
    law_run_adds_messages(info, none, Files::start(info), deliveries, destinations);
    assert(none + written =~= written);
    law_one_file_for_each_name(filenames(written));
}

} // verus!
