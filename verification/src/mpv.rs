//! The state of one connection: the request identifiers it has given out and
//! the notifications that wait for the listener. The functions here decide;
//! reading and writing the channel is the caller's part.

use vstd::prelude::*;
use crate::error::{Error, ErrorCode, ErrorView};
use crate::event::{decode_event, event_of, Event, EventView};
use crate::frame::{
    encode_request, frame_of_line, read_frame, request_of, Frame, FrameView, Notification,
    NotificationView,
};
use crate::json::{items_view, Json, JsonView};
use crate::text::text_eq;
use crate::wire::{json_text, writable};

verus! {

/// A request that was written and waits for its reply.
#[derive(Debug, PartialEq, Eq)]
pub struct PendingRequest {
    /// The identifier that the reply must carry.
    pub request_id: u64,
    /// The line to write to the channel, the newline included.
    pub record: String,
}

/// What a line means to a request that waits for its reply.
#[derive(Debug, PartialEq, Eq)]
pub enum Step {
    /// The line was no reply: read the next one.
    Wait,
    /// The request is resolved, with the payload of its reply or an error.
    Done(Result<Json, Error>),
}

/// Mathematical model of a [`Step`].
pub enum StepView {
    Wait,
    Done(Result<JsonView, ErrorView>),
}

impl View for Step {
    type V = StepView;

    open spec fn view(&self) -> StepView {
        match self {
            Step::Wait => StepView::Wait,
            Step::Done(Ok(payload)) => StepView::Done(Ok(payload@)),
            Step::Done(Err(error)) => StepView::Done(Err(error@)),
        }
    }
}

/// How a reply resolves the request that waits under `pending`: a reply to
/// another request is a fault of the correlation; a reply that reports
/// success gives its payload, null where it has none; any other reply gives
/// the player's error text as it came.
pub open spec fn resolution(
    pending: nat,
    error: Seq<char>,
    data: Option<JsonView>,
    request_id: nat,
) -> Result<JsonView, ErrorView> {
    if request_id != pending {
        Err(ErrorView::UnexpectedResult)
    } else if error == "success"@ {
        Ok(
            match data {
                Some(payload) => payload,
                None => JsonView::Null,
            },
        )
    } else {
        Err(ErrorView::MpvError(error))
    }
}

/// What a line that was read means to the request that waits under `pending`.
pub open spec fn step_of(pending: nat, read: Result<FrameView, ErrorView>) -> StepView {
    match read {
        Ok(FrameView::Notification(_)) => StepView::Wait,
        Ok(FrameView::Reply { error, data, request_id }) => StepView::Done(
            resolution(pending, error, data, request_id),
        ),
        Err(error) => StepView::Done(Err(error)),
    }
}

/// The queue after a line was read while a request waits: a notification goes
/// to its end, anything else leaves it as it is.
pub open spec fn queue_after(queue: Seq<NotificationView>, read: Result<FrameView, ErrorView>) -> Seq<
    NotificationView,
> {
    match read {
        Ok(FrameView::Notification(notification)) => queue.push(notification),
        _ => queue,
    }
}

/// What the listener gets for a line that was read while no request waits,
/// with `queue` ahead of it: the event of the oldest notification, the one
/// just read being the youngest. A reply answers nobody.
pub open spec fn heard(queue: Seq<NotificationView>, read: Result<FrameView, ErrorView>) -> Result<
    EventView,
    ErrorView,
> {
    match read {
        Ok(FrameView::Notification(notification)) => event_of(queue.push(notification)[0]),
        Ok(FrameView::Reply { .. }) => Err(ErrorView::UnexpectedResult),
        Err(error) => Err(error),
    }
}

/// The queue after the listener was served from a line that was read.
pub open spec fn queue_heard(queue: Seq<NotificationView>, read: Result<FrameView, ErrorView>) -> Seq<
    NotificationView,
> {
    match read {
        Ok(FrameView::Notification(notification)) => queue.push(notification).drop_first(),
        _ => queue,
    }
}

/// The views of a run of notifications, one by one.
pub open spec fn notifications_of(queue: Seq<Notification>) -> Seq<NotificationView> {
    Seq::new(queue.len(), |i: int| queue[i]@)
}

/// The protocol state of one connection to the player.
pub struct Mpv {
    name: String,
    next_id: u64,
    queue: Vec<Notification>,
}

impl Mpv {
    /// The name of the socket that the connection was made to.
    pub closed spec fn name(&self) -> Seq<char> {
        self.name@
    }

    /// The identifier that the next request gets.
    pub closed spec fn next_request_id(&self) -> nat {
        self.next_id as nat
    }

    /// The notifications that wait for the listener, oldest first.
    pub closed spec fn queued(&self) -> Seq<NotificationView> {
        notifications_of(self.queue@)
    }

    /// The state of a fresh connection: identifiers start at 1, nothing
    /// waits.
    pub fn new(name: &str) -> (mpv: Mpv)
        ensures
            mpv.name() == name@,
            mpv.next_request_id() == 1,
            mpv.queued() == Seq::<NotificationView>::empty(),
    {
        let mpv = Mpv { name: String::from_str(name), next_id: 1, queue: Vec::new() };
        assert(mpv.queued() =~= Seq::<NotificationView>::empty());
        mpv
    }

    /// The name of the socket that the connection was made to.
    pub fn socket_name(&self) -> (name: &str)
        ensures
            name@ == self.name(),
    {
        self.name.as_str()
    }

    /// How many notifications wait for the listener.
    pub fn queue_len(&self) -> (len: usize)
        ensures
            len == self.queued().len(),
    {
        self.queue.len()
    }

    /// What starting a request does to the state, and what it hands out.
    /// Where the words of the command can be written and an identifier is
    /// left, the request gets the next identifier, which is then spent, and
    /// its record is the text of `{"command": [...], "request_id": ...}` with
    /// a newline behind it. Else it is refused with `UnsupportedType` and no
    /// identifier is spent. The queue stays as it is either way.
    pub open spec fn started(
        &self,
        after: &Mpv,
        command: Seq<JsonView>,
        can_be_written: bool,
        sent: Result<PendingRequest, Error>,
    ) -> bool {
        &&& after.name() == self.name()
        &&& after.queued() == self.queued()
        &&& match sent {
            Ok(pending) => {
                &&& can_be_written
                &&& self.next_request_id() < u64::MAX
                &&& pending.request_id == self.next_request_id()
                &&& pending.record@ == json_text(request_of(command, pending.request_id as nat))
                    + "\n"@
                &&& after.next_request_id() == self.next_request_id() + 1
            },
            Err(error) => {
                &&& error@ == ErrorView::UnsupportedType
                &&& after.next_request_id() == self.next_request_id()
                &&& !can_be_written || self.next_request_id() == u64::MAX
            },
        }
    }

    /// Starts a request: gives it the next identifier and writes its record.
    /// Identifiers grow by one and none is given twice.
    pub fn send(&mut self, command: Vec<Json>) -> (sent: Result<PendingRequest, Error>)
        ensures
            old(self).started(
                final(self),
                items_view(command@),
                forall|i: int| 0 <= i < command@.len() ==> writable(#[trigger] &command@[i]),
                sent,
            ),
    {
        if self.next_id == u64::MAX {
            return Err(Error(ErrorCode::UnsupportedType));
        }
        let request_id = self.next_id;
        match encode_request(command, request_id) {
            Ok(record) => {
                self.next_id = request_id + 1;
                Ok(PendingRequest { request_id, record })
            },
            Err(error) => Err(error),
        }
    }

    /// Takes one record that was read while `pending` waits for its reply. A
    /// notification is put at the end of the queue, and the request waits on.
    /// A reply resolves the request as [`resolution`] says.
    pub fn on_frame(&mut self, pending: &PendingRequest, frame: Frame) -> (step: Step)
        ensures
            final(self).name() == old(self).name(),
            final(self).next_request_id() == old(self).next_request_id(),
            step@ == step_of(pending.request_id as nat, Ok(frame@)),
            final(self).queued() == queue_after(old(self).queued(), Ok(frame@)),
    {
        match frame {
            Frame::Notification(notification) => {
                let ghost before = self.queue@;
                self.queue.push(notification);
                assert(notifications_of(self.queue@) =~= notifications_of(before).push(
                    notification@,
                ));
                Step::Wait
            },
            Frame::Reply { error, data, request_id } => {
                if request_id != pending.request_id {
                    Step::Done(Err(Error(ErrorCode::UnexpectedResult)))
                } else if text_eq(error.as_str(), "success") {
                    match data {
                        Some(payload) => Step::Done(Ok(payload)),
                        None => Step::Done(Ok(Json::Null)),
                    }
                } else {
                    Step::Done(Err(Error(ErrorCode::MpvError(error))))
                }
            },
        }
    }

    /// Takes one line that was read while `pending` waits for its reply. A
    /// line that is no record resolves the request with the error of
    /// [`frame_of_line`]; a record is taken as [`Mpv::on_frame`] says.
    pub fn receive(&mut self, pending: &PendingRequest, line: &str) -> (step: Step)
        ensures
            final(self).name() == old(self).name(),
            final(self).next_request_id() == old(self).next_request_id(),
            step@ == step_of(pending.request_id as nat, frame_of_line(line@)),
            final(self).queued() == queue_after(old(self).queued(), frame_of_line(line@)),
    {
        match read_frame(line) {
            Ok(frame) => self.on_frame(pending, frame),
            Err(error) => Step::Done(Err(error)),
        }
    }

    /// Takes lines that were read ahead while `pending` waits for its reply,
    /// one after the other up to the one that resolves it, and tells how many
    /// were taken. The lines behind that one are left to the caller.
    pub fn receive_all(&mut self, pending: &PendingRequest, lines: &Vec<String>) -> (outcome: (
        Step,
        usize,
    ))
        ensures
            final(self).name() == old(self).name(),
            final(self).next_request_id() == old(self).next_request_id(),
            (final(self).queued(), outcome.0@) == dispatch_over(
                pending.request_id as nat,
                old(self).queued(),
                reads_of(lines@),
            ),
            match first_other(reads_of(lines@)) {
                Some(position) => outcome.1 == position + 1,
                None => outcome.1 == lines@.len(),
            },
    {
        let ghost reads = reads_of(lines@);
        let ghost id = pending.request_id as nat;
        let ghost queue = self.queued();
        let mut i: usize = 0;
        proof {
            assert(reads.skip(0) =~= reads);
        }
        while i < lines.len()
            invariant
                i <= lines.len(),
                reads == reads_of(lines@),
                id == pending.request_id as nat,
                queue == old(self).queued(),
                self.name() == old(self).name(),
                self.next_request_id() == old(self).next_request_id(),
                dispatch_over(id, queue, reads) == dispatch_over(
                    id,
                    self.queued(),
                    reads.skip(i as int),
                ),
                match first_other(reads.skip(i as int)) {
                    Some(position) => first_other(reads) == Some(position + i),
                    None => first_other(reads) is None,
                },
            decreases lines.len() - i,
        {
            let ghost rest = reads.skip(i as int);
            proof {
                assert(rest[0] == frame_of_line(lines@[i as int]@));
                assert(rest.drop_first() =~= reads.skip(i + 1));
            }
            let step = self.receive(pending, lines[i].as_str());
            match step {
                Step::Wait => {},
                done => {
                    return (done, i + 1);
                },
            }
            i = i + 1;
        }
        (Step::Wait, i)
    }

    /// Hands out the event of the oldest notification that waits, if one
    /// does. `None` tells the caller to read a line and hand it to
    /// [`Mpv::event_from_line`].
    pub fn event_listen(&mut self) -> (event: Option<Result<Event, Error>>)
        ensures
            final(self).name() == old(self).name(),
            final(self).next_request_id() == old(self).next_request_id(),
            old(self).queued().len() == 0 ==> event is None && final(self).queued() == old(
                self,
            ).queued(),
            old(self).queued().len() > 0 ==> final(self).queued() == old(
                self,
            ).queued().drop_first() && match event {
                Some(Ok(event)) => event_of(old(self).queued()[0]) == Ok::<EventView, ErrorView>(
                    event@,
                ),
                Some(Err(error)) => event_of(old(self).queued()[0]) == Err::<
                    EventView,
                    ErrorView,
                >(error@),
                None => false,
            },
    {
        if self.queue.len() == 0 {
            None
        } else {
            let ghost before = self.queue@;
            let oldest = self.queue.remove(0);
            assert(notifications_of(self.queue@) =~= notifications_of(before).drop_first());
            assert(notifications_of(before)[0] == oldest@);
            Some(decode_event(&oldest))
        }
    }

    /// Serves the listener from a line that was read while no request waits.
    /// The notification on the line goes behind those that wait, and the
    /// oldest of them all is handed out. A reply is refused with
    /// `UnexpectedResult`, a line that is no record with the error of
    /// [`frame_of_line`]; both leave the queue as it is.
    pub fn event_from_line(&mut self, line: &str) -> (event: Result<Event, Error>)
        ensures
            final(self).name() == old(self).name(),
            final(self).next_request_id() == old(self).next_request_id(),
            final(self).queued() == queue_heard(old(self).queued(), frame_of_line(line@)),
            match event {
                Ok(event) => heard(old(self).queued(), frame_of_line(line@)) == Ok::<
                    EventView,
                    ErrorView,
                >(event@),
                Err(error) => heard(old(self).queued(), frame_of_line(line@)) == Err::<
                    EventView,
                    ErrorView,
                >(error@),
            },
    {
        match read_frame(line) {
            Ok(Frame::Notification(notification)) => {
                let ghost before = self.queue@;
                self.queue.push(notification);
                assert(notifications_of(self.queue@) =~= notifications_of(before).push(
                    notification@,
                ));
                let ghost longer = self.queue@;
                let oldest = self.queue.remove(0);
                assert(notifications_of(self.queue@) =~= notifications_of(longer).drop_first());
                assert(notifications_of(longer)[0] == oldest@);
                decode_event(&oldest)
            },
            Ok(Frame::Reply { .. }) => Err(Error(ErrorCode::UnexpectedResult)),
            Err(error) => Err(error),
        }
    }
}

/// What each of a run of lines is when it is read.
pub open spec fn reads_of(lines: Seq<String>) -> Seq<Result<FrameView, ErrorView>> {
    Seq::new(lines.len(), |i: int| frame_of_line(lines[i]@))
}

/// A run of notifications as the lines they were read from.
pub open spec fn as_reads(notifications: Seq<NotificationView>) -> Seq<
    Result<FrameView, ErrorView>,
> {
    Seq::new(
        notifications.len(),
        |i: int| Ok::<FrameView, ErrorView>(FrameView::Notification(notifications[i])),
    )
}

/// A whole exchange: the queue and the step after the lines in `reads` were
/// taken one after the other, up to the first that resolves the request that
/// waits under `pending`. Where none does, the request still waits.
pub open spec fn dispatch_over(
    pending: nat,
    queue: Seq<NotificationView>,
    reads: Seq<Result<FrameView, ErrorView>>,
) -> (Seq<NotificationView>, StepView)
    decreases reads.len(),
{
    if reads.len() == 0 {
        (queue, StepView::Wait)
    } else {
        match step_of(pending, reads[0]) {
            StepView::Wait => dispatch_over(
                pending,
                queue_after(queue, reads[0]),
                reads.drop_first(),
            ),
            done => (queue_after(queue, reads[0]), done),
        }
    }
}

/// Whether a line that was read is a notification.
pub open spec fn is_notification(read: Result<FrameView, ErrorView>) -> bool {
    read is Ok && read->Ok_0 is Notification
}

/// Whether a line that was read is a reply to the request with the given
/// identifier.
pub open spec fn answers(read: Result<FrameView, ErrorView>, pending: nat) -> bool {
    read is Ok && read->Ok_0 is Reply && read->Ok_0->request_id == pending
}

/// Whether a line that was read is one that reading can give: where it is an
/// error, it is one of the two that [`frame_of_line`] has.
pub open spec fn readable(read: Result<FrameView, ErrorView>) -> bool {
    read is Err ==> read->Err_0 is JsonParseError || read->Err_0 is UnexpectedValue
}

/// Whatever the lines are, what they are when read is readable.
pub proof fn lemma_lines_readable(lines: Seq<String>)
    ensures
        forall|i: int| 0 <= i < lines.len() ==> readable(#[trigger] reads_of(lines)[i]),
{
}

/// Whether a request was resolved by what the player said to it: with a
/// payload, or with an error text of the player.
pub open spec fn answered(step: StepView) -> bool {
    step is Done && (step->Done_0 is Ok || step->Done_0->Err_0 is MpvError)
}

/// The position of the first line that is no notification, if there is one.
pub open spec fn first_other(reads: Seq<Result<FrameView, ErrorView>>) -> Option<int>
    decreases reads.len(),
{
    if reads.len() == 0 {
        None
    } else if is_notification(reads[0]) {
        match first_other(reads.drop_first()) {
            Some(position) => Some(position + 1),
            None => None,
        }
    } else {
        Some(0)
    }
}

/// The notifications on the first `count` lines, in order.
pub open spec fn notifications_upto(reads: Seq<Result<FrameView, ErrorView>>, count: int) -> Seq<
    NotificationView,
> {
    Seq::new(
        count as nat,
        |i: int|
            match reads[i] {
                Ok(FrameView::Notification(notification)) => notification,
                _ => arbitrary(),
            },
    )
}

/// The events that `count` calls of [`Mpv::event_listen`] hand out from a
/// queue, as long as it lasts.
pub open spec fn listened(queue: Seq<NotificationView>, count: nat) -> Seq<
    Result<EventView, ErrorView>,
>
    decreases count,
{
    if count == 0 || queue.len() == 0 {
        Seq::empty()
    } else {
        seq![event_of(queue[0])] + listened(queue.drop_first(), (count - 1) as nat)
    }
}

/// Notifications ahead of anything else go to the end of the queue, in their
/// order, and the exchange goes on with what follows them.
pub proof fn lemma_dispatch_queues_notifications(
    pending: nat,
    queue: Seq<NotificationView>,
    notifications: Seq<NotificationView>,
    rest: Seq<Result<FrameView, ErrorView>>,
)
    ensures
        dispatch_over(pending, queue, as_reads(notifications) + rest) == dispatch_over(
            pending,
            queue + notifications,
            rest,
        ),
    decreases notifications.len(),
{
    let reads = as_reads(notifications) + rest;
    if notifications.len() == 0 {
        assert(reads =~= rest);
        assert(queue + notifications =~= queue);
    } else {
        let first = notifications[0];
        assert(reads[0] == Ok::<FrameView, ErrorView>(FrameView::Notification(first)));
        assert(reads.drop_first() =~= as_reads(notifications.drop_first()) + rest);
        lemma_dispatch_queues_notifications(
            pending,
            queue.push(first),
            notifications.drop_first(),
            rest,
        );
        assert(queue.push(first) + notifications.drop_first() =~= queue + notifications);
    }
}

/// Correlation. However many notifications come before it, the reply that
/// carries the identifier of the waiting request is the one that resolves
/// it: with its payload if it reports success, with the player's error text
/// if not, and never as a reply to somebody else. The notifications that came
/// before it stand at the end of the queue, in the order of their arrival,
/// and whatever follows the reply is not touched.
pub proof fn lemma_dispatch_correlates(
    pending: nat,
    queue: Seq<NotificationView>,
    notifications: Seq<NotificationView>,
    error: Seq<char>,
    data: Option<JsonView>,
    later: Seq<Result<FrameView, ErrorView>>,
)
    ensures
        dispatch_over(
            pending,
            queue,
            as_reads(notifications) + seq![
                Ok::<FrameView, ErrorView>(FrameView::Reply { error, data, request_id: pending }),
            ] + later,
        ) == (
            queue + notifications,
            StepView::Done(
                if error == "success"@ {
                    Ok(
                        match data {
                            Some(payload) => payload,
                            None => JsonView::Null,
                        },
                    )
                } else {
                    Err(ErrorView::MpvError(error))
                },
            ),
        ),
{
    let reply = Ok::<FrameView, ErrorView>(FrameView::Reply { error, data, request_id: pending });
    let rest = seq![reply] + later;
    lemma_dispatch_queues_notifications(pending, queue, notifications, rest);
    assert(as_reads(notifications) + seq![reply] + later =~= as_reads(notifications) + rest);
    assert(rest[0] == reply);
}

/// An exchange is resolved by the first line that is no notification, and by
/// nothing else. A request that is resolved with a payload, or with an error
/// text of the player, was resolved by a reply that carries its own
/// identifier. All notifications before that line, and only they, were put at
/// the end of the queue, in the order of their arrival.
pub proof fn lemma_dispatch_resolution(
    pending: nat,
    queue: Seq<NotificationView>,
    reads: Seq<Result<FrameView, ErrorView>>,
)
    requires
        forall|i: int| 0 <= i < reads.len() ==> readable(#[trigger] reads[i]),
    ensures
        match first_other(reads) {
            Some(position) => {
                &&& 0 <= position < reads.len()
                &&& forall|i: int| 0 <= i < position ==> is_notification(#[trigger] reads[i])
                &&& dispatch_over(pending, queue, reads) == (
                    queue + notifications_upto(reads, position),
                    step_of(pending, reads[position]),
                )
                &&& step_of(pending, reads[position]) is Done
                &&& answered(step_of(pending, reads[position])) ==> answers(
                    reads[position],
                    pending,
                )
            },
            None => {
                &&& forall|i: int| 0 <= i < reads.len() ==> is_notification(#[trigger] reads[i])
                &&& dispatch_over(pending, queue, reads) == (
                    queue + notifications_upto(reads, reads.len() as int),
                    StepView::Wait,
                )
            },
        },
    decreases reads.len(),
{
    if reads.len() == 0 {
        assert(queue + notifications_upto(reads, 0) =~= queue);
    } else if is_notification(reads[0]) {
        let first = reads[0]->Ok_0->Notification_0;
        let rest = reads.drop_first();
        assert forall|i: int| 0 <= i < rest.len() implies readable(#[trigger] rest[i]) by {
            assert(rest[i] == reads[i + 1]);
        }
        lemma_dispatch_resolution(pending, queue.push(first), rest);
        assert(dispatch_over(pending, queue, reads) == dispatch_over(
            pending,
            queue.push(first),
            rest,
        ));
        let count = match first_other(rest) {
            Some(position) => position,
            None => rest.len() as int,
        };
        assert(0 <= count <= rest.len());
        assert forall|i: int| 0 <= i < count + 1 implies is_notification(#[trigger] reads[i]) by {
            if i > 0 {
                assert(rest[i - 1] == reads[i]);
                assert(is_notification(rest[i - 1]));
            }
        }
        assert(queue.push(first) + notifications_upto(rest, count) =~= queue
            + notifications_upto(reads, count + 1)) by {
            let left = queue.push(first) + notifications_upto(rest, count);
            let right = queue + notifications_upto(reads, count + 1);
            assert(left.len() == right.len());
            assert forall|i: int| 0 <= i < left.len() implies left[i] == right[i] by {
                if i > queue.len() {
                    assert(rest[i - queue.len() - 1] == reads[i - queue.len()]);
                }
            }
        }
        if first_other(rest) is Some {
            assert(rest[count] == reads[count + 1]);
        }
    } else {
        assert(readable(reads[0]));
        assert(queue + notifications_upto(reads, 0) =~= queue);
    }
}

/// First in, first out. The listener is handed the events of the queue in
/// the order of the queue, none left out and none twice.
pub proof fn lemma_listened_in_order(queue: Seq<NotificationView>, count: nat)
    ensures
        listened(queue, count).len() == if count <= queue.len() {
            count
        } else {
            queue.len()
        },
        forall|i: int|
            0 <= i < listened(queue, count).len() ==> #[trigger] listened(queue, count)[i]
                == event_of(queue[i]),
    decreases count,
{
    if count > 0 && queue.len() > 0 {
        let rest = queue.drop_first();
        lemma_listened_in_order(rest, (count - 1) as nat);
        assert forall|i: int| 0 <= i < listened(queue, count).len() implies #[trigger] listened(
            queue,
            count,
        )[i] == event_of(queue[i]) by {
            if i > 0 {
                assert(listened(queue, count)[i] == listened(rest, (count - 1) as nat)[i - 1]);
                assert(rest[i - 1] == queue[i]);
            }
        }
    }
}

/// Order of delivery across an exchange. The notifications that an exchange
/// met are handed to the listener after those that waited before it and
/// before any that arrives later, each in the order of its arrival: a later
/// one that is read while some still wait goes behind them all, and the
/// oldest is handed out in its place.
pub proof fn lemma_events_in_arrival_order(
    pending: nat,
    queue: Seq<NotificationView>,
    notifications: Seq<NotificationView>,
    error: Seq<char>,
    data: Option<JsonView>,
    later: NotificationView,
)
    ensures
        ({
            let reply = Ok::<FrameView, ErrorView>(
                FrameView::Reply { error, data, request_id: pending },
            );
            let after = dispatch_over(pending, queue, as_reads(notifications).push(reply)).0;
            let read = Ok::<FrameView, ErrorView>(FrameView::Notification(later));
            &&& after == queue + notifications
            &&& listened(after, after.len()).len() == after.len()
            &&& forall|i: int|
                0 <= i < after.len() ==> #[trigger] listened(after, after.len())[i] == event_of(
                    (queue + notifications)[i],
                )
            &&& heard(after, read) == event_of(after.push(later)[0])
            &&& queue_heard(after, read) == after.push(later).drop_first()
            &&& after.len() > 0 ==> heard(after, read) == event_of(after[0]) && queue_heard(
                after,
                read,
            ).last() == later
        }),
{
    let reply = Ok::<FrameView, ErrorView>(FrameView::Reply { error, data, request_id: pending });
    lemma_dispatch_correlates(pending, queue, notifications, error, data, Seq::empty());
    assert(as_reads(notifications).push(reply) =~= as_reads(notifications) + seq![reply]
        + Seq::<Result<FrameView, ErrorView>>::empty());
    lemma_listened_in_order(queue + notifications, (queue + notifications).len());
}

} // verus!
