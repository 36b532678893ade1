//! What holds of every image on its way from an FTP session to the parent process.

use vstd::prelude::*;

use crate::config::ConfigView;
use crate::pipeline::{delivered, has_bmp_signature, message, InputView};
use crate::pipeline_laws::{
    every_image_is_delivered_once, images_are_delivered_in_order, messages, reached, run,
};
use crate::session::{
    command_argument, respond, within_limit, ActionView, MAX_UPLOAD_BYTES,
};
use crate::session_laws::{
    action_at, is_login, is_upload, lemma_commands_differ, talk, upload_uses_up_the_channel, Read,
};

verus! {

/// What a session hands to the pipeline when `reads` arrive. `data` tells for each of them
/// what a client would send over the data connection.
pub open spec fn handed(config: ConfigView, reads: Seq<Read>, data: Seq<Seq<u8>>) -> Seq<InputView>
    decreases reads.len(),
{
    if reads.len() == 0 {
        Seq::empty()
    } else {
        let talked = talk(config, reads.drop_last());
        let earlier = handed(config, reads.drop_last(), data.drop_last());
        match respond(talked.session, config, reads.last().line).1 {
            ActionView::Receive { name, limit, .. } => if talked.end is Some {
                earlier
            } else {
                earlier.push(InputView { data: within_limit(data.last(), limit), name })
            },
            _ => earlier,
        }
    }
}

/// Tells that the line at `i` is read, and that an upload follows it.
pub open spec fn starts_upload(config: ConfigView, reads: Seq<Read>, i: int) -> bool {
    &&& 0 <= i < reads.len()
    &&& talk(config, reads.take(i)).end is None
    &&& action_at(config, reads, i) is Receive
}

/// The places of the lines that uploads follow.
pub open spec fn uploads(config: ConfigView, reads: Seq<Read>) -> Seq<int>
    decreases reads.len(),
{
    if reads.len() == 0 {
        Seq::empty()
    } else if starts_upload(config, reads, reads.len() - 1) {
        uploads(config, reads.drop_last()).push(reads.len() - 1)
    } else {
        uploads(config, reads.drop_last())
    }
}

/// Tells that a login is among the lines before `i`.
pub open spec fn login_before(config: ConfigView, reads: Seq<Read>, i: int) -> bool {
    exists|j: int| 0 <= j < i && is_login(config, (#[trigger] reads[j]).line)
}

/// What is handed over for the upload that follows the line at `i`: the data within the
/// limit, and the file name that came with `STOR`.
pub open spec fn uploaded(reads: Seq<Read>, data: Seq<Seq<u8>>, i: int) -> InputView {
    InputView {
        data: within_limit(data[i], MAX_UPLOAD_BYTES),
        name: command_argument(reads[i].line),
    }
}

proof fn lemma_login(config: ConfigView, reads: Seq<Read>)
    ensures
        talk(config, reads).session.authenticated ==> login_before(
            config,
            reads,
            reads.len() as int,
        ),
    decreases reads.len(),
{
    if reads.len() > 0 {
        let front = reads.drop_last();
        lemma_login(config, front);
        lemma_commands_differ();
        if login_before(config, front, front.len() as int) {
            let j = choose|j: int|
                0 <= j < front.len() && is_login(config, (#[trigger] front[j]).line);
            assert(is_login(config, reads[j].line));
        } else if talk(config, reads).session.authenticated {
            assert(is_login(config, reads[reads.len() - 1].line));
        }
    }
}

/// The uploads of a session are handed to the pipeline, each once and in their order, and
/// nothing else is. Each is `STOR` of an image after a login.
pub proof fn uploads_are_handed_on(config: ConfigView, reads: Seq<Read>, data: Seq<Seq<u8>>)
    requires
        reads.len() == data.len(),
    ensures
        handed(config, reads, data) == uploads(config, reads).map_values(
            |i: int| uploaded(reads, data, i),
        ),
        forall|k: int, l: int|
            0 <= k < l < uploads(config, reads).len() ==> #[trigger] uploads(config, reads)[k]
                < #[trigger] uploads(config, reads)[l],
        forall|i: int| #[trigger]
            uploads(config, reads).contains(i) <==> starts_upload(config, reads, i),
        forall|i: int| #[trigger]
            starts_upload(config, reads, i) ==> is_upload(reads[i].line) && login_before(
                config,
                reads,
                i,
            ),
    decreases reads.len(),
{
    let at = uploads(config, reads);
    if reads.len() == 0 {
        assert(handed(config, reads, data) =~= at.map_values(|i: int| uploaded(reads, data, i)));
    } else {
        let front = reads.drop_last();
        let last = reads.len() - 1;
        let before = uploads(config, front);
        uploads_are_handed_on(config, front, data.drop_last());
        assert(reads.take(last) =~= front);
        assert forall|i: int| 0 <= i < last implies starts_upload(config, reads, i)
            == starts_upload(config, front, i) by {
            assert(reads.take(i) =~= front.take(i));
        }
        assert forall|k: int| 0 <= k < before.len() implies 0 <= #[trigger] before[k] < last by {
            assert(before.contains(before[k]));
        }
        let session = talk(config, front).session;
        upload_uses_up_the_channel(session, config, reads.last().line);
        assert(handed(config, front, data.drop_last()) =~= before.map_values(
            |i: int| uploaded(reads, data, i),
        ));
        assert(handed(config, reads, data) =~= at.map_values(|i: int| uploaded(reads, data, i)));
        assert forall|i: int| #[trigger] at.contains(i) <==> starts_upload(config, reads, i) by {
            if starts_upload(config, reads, last) {
                assert(at[at.len() - 1] == last);
            }
            if before.contains(i) {
                let k = before.index_of(i);
                assert(at[k] == i);
            }
            if at.contains(i) && i != last {
                let k = at.index_of(i);
                assert(before[k] == i);
            }
        }
        assert forall|i: int| #[trigger] starts_upload(config, reads, i) implies is_upload(
            reads[i].line,
        ) && login_before(config, reads, i) by {
            if i < last {
                assert(starts_upload(config, front, i));
                let j = choose|j: int|
                    0 <= j < i && is_login(config, (#[trigger] front[j]).line);
                assert(is_login(config, reads[j].line));
            } else {
                lemma_login(config, front);
                let j = choose|j: int|
                    0 <= j < last && is_login(config, (#[trigger] front[j]).line);
                assert(is_login(config, reads[j].line));
            }
        }
    }
}

/// A connection to the parent process is opened for each image that a session has uploaded,
/// in their order, and for nothing else. The messages of those that can be sent reach it.
pub proof fn uploads_reach_the_parent(
    config: ConfigView,
    reads: Seq<Read>,
    data: Seq<Seq<u8>>,
    outcomes: Seq<Result<(), Seq<char>>>,
)
    requires
        reads.len() == data.len(),
        outcomes.len() == uploads(config, reads).len(),
    ensures
        ({
            let inputs = uploads(config, reads).map_values(|i: int| uploaded(reads, data, i));
            let run = run(handed(config, reads, data), outcomes);
            &&& run.attempted == messages(inputs)
            &&& run.sent == delivered(inputs, reached(outcomes))
            &&& ((forall|k: int|
                0 <= k < inputs.len() ==> has_bmp_signature((#[trigger] inputs[k]).data)) && (
            forall|k: int| 0 <= k < outcomes.len() ==> #[trigger] outcomes[k] is Ok)) ==> run.sent
                == inputs.map_values(|input: InputView| message(input))
        }),
{
    let inputs = uploads(config, reads).map_values(|i: int| uploaded(reads, data, i));
    uploads_are_handed_on(config, reads, data);
    images_are_delivered_in_order(inputs, outcomes);
    if (forall|k: int| 0 <= k < inputs.len() ==> has_bmp_signature((#[trigger] inputs[k]).data))
        && (forall|k: int| 0 <= k < outcomes.len() ==> #[trigger] outcomes[k] is Ok) {
        every_image_is_delivered_once(inputs, outcomes);
    }
}

} // verus!
