//! Showing a freshly drawn buffer: the first one by setting up the controller, every
//! later one by a page flip at the next vertical blank.
use crate::card::Resources;
use crate::monitor::Mode;
use vstd::prelude::*;

verus! {

/// What a window is shown with. Buffers are known by their addresses.
#[derive(Debug, Copy, Clone, PartialEq, Eq)]
pub struct Frame {
    /// The buffer on display; `None` until the first one is shown.
    pub bo: Option<usize>,
    pub crtc: u32,
    pub connector: u32,
    pub encoder: u32,
    pub mode: Mode,
}

/// How the controller is set up for the first buffer.
#[derive(Debug, Copy, Clone, PartialEq, Eq)]
pub struct CrtcConfig {
    pub crtc: u32,
    pub framebuffer: u32,
    pub connector: u32,
    pub position: (u32, u32),
    pub mode: Mode,
}

/// What the card reports while a flip is pending.
#[derive(Debug, Copy, Clone, PartialEq, Eq)]
pub enum CrtcEvent {
    Vblank,
    PageFlip,
    Unknown,
}

/// What is to be done next to show a buffer.
#[derive(Debug, Copy, Clone, PartialEq, Eq)]
pub enum FlipAction {
    /// Set up the controller; answered by `CrtcSet`.
    SetCrtc(CrtcConfig),
    /// Queue a page flip that reports its completion; answered by `Queued`.
    QueueFlip { crtc: u32, framebuffer: u32 },
    /// Wait for reports of the card; answered by `Events`.
    ReceiveEvents,
    /// Nothing: the buffer is on display, and the one before it is free.
    Done,
}

/// What came of a `FlipAction`.
#[derive(Debug, PartialEq, Eq)]
pub enum FlipReply {
    CrtcSet,
    Queued,
    Events(Vec<CrtcEvent>),
}

/// How far a flip has come.
#[derive(Debug, Copy, Clone, PartialEq, Eq)]
pub enum FlipStage {
    SettingCrtc,
    Queueing,
    Waiting,
    Finished,
}

/// A flip under way to the buffer `next_bo`.
#[derive(Debug, PartialEq, Eq)]
pub struct PageFlip {
    pub next_bo: usize,
    pub stage: FlipStage,
}

/// The set-up of the controller that shows `framebuffer` in `frame`.
pub open spec fn config_for(frame: Frame, framebuffer: u32) -> CrtcConfig {
    CrtcConfig {
        crtc: frame.crtc,
        framebuffer,
        connector: frame.connector,
        position: (0, 0),
        mode: frame.mode,
    }
}

/// `frame` with `bo` on display.
pub open spec fn shown(frame: Frame, bo: usize) -> Frame {
    Frame { bo: Some(bo), ..frame }
}

/// One of the reports says that the flip is complete.
pub open spec fn flip_complete(events: Seq<CrtcEvent>) -> bool {
    exists|i: int| 0 <= i < events.len() && #[trigger] events[i] is PageFlip
}

/// How far a flip is that has just begun.
pub open spec fn first_stage(frame: Frame) -> FlipStage {
    if frame.bo is None {
        FlipStage::SettingCrtc
    } else {
        FlipStage::Queueing
    }
}

/// What a flip begins with.
pub open spec fn first_action(frame: Frame, framebuffer: u32) -> FlipAction {
    if frame.bo is None {
        FlipAction::SetCrtc(config_for(frame, framebuffer))
    } else {
        FlipAction::QueueFlip { crtc: frame.crtc, framebuffer }
    }
}

/// The flip has asked for what `reply` answers.
pub open spec fn flip_expects(stage: FlipStage, reply: FlipReply) -> bool {
    match stage {
        FlipStage::SettingCrtc => reply is CrtcSet,
        FlipStage::Queueing => reply is Queued,
        FlipStage::Waiting => reply is Events,
        FlipStage::Finished => false,
    }
}

/// `reply` puts the buffer on display.
pub open spec fn completes(reply: FlipReply) -> bool {
    match reply {
        FlipReply::CrtcSet => true,
        FlipReply::Queued => false,
        FlipReply::Events(events) => flip_complete(events@),
    }
}

/// How far a flip is once it got `reply`.
pub open spec fn next_stage(reply: FlipReply) -> FlipStage {
    if completes(reply) {
        FlipStage::Finished
    } else {
        FlipStage::Waiting
    }
}

/// How far a flip at `stage` is once it got `replies`, one after the other.
pub open spec fn stage_after(stage: FlipStage, replies: Seq<FlipReply>) -> FlipStage {
    if replies.len() == 0 {
        stage
    } else {
        next_stage(replies.last())
    }
}

/// `replies` are the answers to what a flip at `stage` asks for, one after the other.
pub open spec fn is_flip_run(stage: FlipStage, replies: Seq<FlipReply>) -> bool {
    forall|k: int|
        0 <= k < replies.len() ==> flip_expects(
            stage_after(stage, replies.take(k)),
            #[trigger] replies[k],
        )
}

/// The frame of a new window: nothing is on display yet.
pub fn new_frame(resources: Resources) -> (frame: Frame)
    ensures
        frame == (Frame {
            bo: None,
            crtc: resources.crtc,
            connector: resources.connector,
            encoder: resources.encoder,
            mode: resources.mode,
        }),
{
    Frame {
        bo: None,
        crtc: resources.crtc,
        connector: resources.connector,
        encoder: resources.encoder,
        mode: resources.mode,
    }
}

/// How to set up the controller, if nothing is on display yet.
pub fn set_crtc(frame: &Frame, framebuffer: u32) -> (config: Option<CrtcConfig>)
    ensures
        config == (if frame.bo is None {
            Some(config_for(*frame, framebuffer))
        } else {
            None
        }),
{
    if frame.bo.is_some() {
        None
    } else {
        Some(
            CrtcConfig {
                crtc: frame.crtc,
                framebuffer,
                connector: frame.connector,
                position: (0, 0),
                mode: frame.mode,
            },
        )
    }
}

/// Begins to show the buffer `next_bo`, of which `framebuffer` is the handle.
pub fn page_flip(frame: &Frame, next_bo: usize, framebuffer: u32) -> (begun: (PageFlip, FlipAction))
    ensures
        begun.0 == (PageFlip { next_bo, stage: first_stage(*frame) }),
        begun.1 == first_action(*frame, framebuffer),
{
    match set_crtc(frame, framebuffer) {
        Some(config) => (
            PageFlip { next_bo, stage: FlipStage::SettingCrtc },
            FlipAction::SetCrtc(config),
        ),
        None => (
            PageFlip { next_bo, stage: FlipStage::Queueing },
            FlipAction::QueueFlip { crtc: frame.crtc, framebuffer },
        ),
    }
}

/// Tells whether one of the reports says that the flip is complete.
fn reports_completion(events: &Vec<CrtcEvent>) -> (complete: bool)
    ensures
        complete == flip_complete(events@),
{
    let mut waiting_for_flip = true;
    let mut i: usize = 0;
    while i < events.len()
        invariant
            i <= events@.len(),
            waiting_for_flip == !flip_complete(events@.take(i as int)),
        decreases events@.len() - i,
    {
        proof {
            let seen = events@.take(i as int);
            let more = events@.take(i + 1);
            assert(forall|j: int| 0 <= j < i ==> seen[j] == more[j]);
            assert(more[i as int] == events@[i as int]);
            if flip_complete(seen) {
                let j = choose|j: int| 0 <= j < seen.len() && #[trigger] seen[j] is PageFlip;
                assert(more[j] is PageFlip);
            }
            if flip_complete(more) {
                let j = choose|j: int| 0 <= j < more.len() && #[trigger] more[j] is PageFlip;
                assert(j < i ==> seen[j] is PageFlip);
            }
        }
        match events[i] {
            CrtcEvent::Vblank => {},
            CrtcEvent::PageFlip => {
                waiting_for_flip = false;
            },
            CrtcEvent::Unknown => {},
        }
        i += 1;
    }
    assert(events@.take(events@.len() as int) == events@);
    !waiting_for_flip
}

impl PageFlip {
    /// Carries the flip on with what came of the action before. The frame changes when
    /// the flip is done, and not before.
    pub fn resume(&mut self, frame: &mut Frame, reply: FlipReply) -> (action: FlipAction)
        requires
            flip_expects(old(self).stage, reply),
        ensures
            final(self).next_bo == old(self).next_bo,
            final(self).stage == next_stage(reply),
            completes(reply) ==> {
                &&& action == FlipAction::Done
                &&& *final(frame) == shown(*old(frame), old(self).next_bo)
            },
            !completes(reply) ==> {
                &&& action == FlipAction::ReceiveEvents
                &&& *final(frame) == *old(frame)
            },
    {
        let complete = match &reply {
            FlipReply::CrtcSet => true,
            FlipReply::Queued => false,
            FlipReply::Events(events) => reports_completion(events),
        };
        if complete {
            frame.bo = Some(self.next_bo);
            self.stage = FlipStage::Finished;
            FlipAction::Done
        } else {
            self.stage = FlipStage::Waiting;
            FlipAction::ReceiveEvents
        }
    }
}

/// The first buffer of a window is shown by setting up the controller.
pub proof fn law_first_buffer_sets_the_controller(frame: Frame, framebuffer: u32)
    requires
        frame.bo is None,
    ensures
        first_action(frame, framebuffer) == FlipAction::SetCrtc(config_for(frame, framebuffer)),
{
}

/// Once a buffer has been shown, every later one is shown by a page flip on the same
/// controller.
pub proof fn law_later_buffers_are_flipped(frame: Frame, shown_bo: usize, framebuffer: u32)
    ensures
        first_action(shown(frame, shown_bo), framebuffer) == (FlipAction::QueueFlip {
            crtc: frame.crtc,
            framebuffer,
        }),
{
}

/// A flip waits for its completion: it is finished by the first reply that puts the
/// buffer on display, and by no other.
pub proof fn law_flip_waits_for_completion(stage: FlipStage, replies: Seq<FlipReply>)
    requires
        replies.len() > 0,
        is_flip_run(stage, replies),
    ensures
        stage_after(stage, replies) is Finished <==> completes(replies.last()),
        forall|k: int| 0 <= k < replies.len() - 1 ==> !completes(#[trigger] replies[k]),
{
    assert forall|k: int| 0 <= k < replies.len() - 1 implies !completes(#[trigger] replies[k]) by {
        let before = replies.take(k + 1);
        assert(before.last() == replies[k]);
        assert(flip_expects(stage_after(stage, before), replies[k + 1]));
    }
}

/// The report that the flip is complete completes it, whatever else is reported with it
/// and wherever it stands among the reports. The buffer is then the one on display, and
/// nothing else about the frame has changed.
pub proof fn law_report_completes_wherever_it_stands(events: Vec<CrtcEvent>, i: int)
    requires
        0 <= i < events@.len(),
        events@[i] == CrtcEvent::PageFlip,
    ensures
        completes(FlipReply::Events(events)),
        forall|flip: &mut PageFlip, frame: &mut Frame, action: FlipAction| #[trigger]
            call_ensures(PageFlip::resume, (flip, frame, FlipReply::Events(events)), action)
                ==> {
                &&& action == FlipAction::Done
                &&& final(flip).stage == FlipStage::Finished
                &&& final(flip).next_bo == (*flip).next_bo
                &&& final(frame).bo == Some((*flip).next_bo)
                &&& final(frame).crtc == (*frame).crtc
                &&& final(frame).connector == (*frame).connector
                &&& final(frame).encoder == (*frame).encoder
                &&& final(frame).mode == (*frame).mode
            },
{
    assert(events@[i] is PageFlip);
}

/// Without that report the flip goes on waiting, however many other reports there are,
/// and what is on display stays there.
pub proof fn law_no_other_report_completes(events: Vec<CrtcEvent>)
    requires
        forall|i: int| 0 <= i < events@.len() ==> #[trigger] events@[i] != CrtcEvent::PageFlip,
    ensures
        !completes(FlipReply::Events(events)),
        forall|flip: &mut PageFlip, frame: &mut Frame, action: FlipAction| #[trigger]
            call_ensures(PageFlip::resume, (flip, frame, FlipReply::Events(events)), action)
                ==> {
                &&& action == FlipAction::ReceiveEvents
                &&& final(flip).stage == FlipStage::Waiting
                &&& final(flip).next_bo == (*flip).next_bo
                &&& *final(frame) == *frame
            },
{
}

/// To set up the controller puts the buffer on display at once. To queue a flip does not:
/// what is on display stays there, and reports are waited for.
pub proof fn law_controller_shows_and_queue_waits()
    ensures
        completes(FlipReply::CrtcSet),
        !completes(FlipReply::Queued),
        forall|flip: &mut PageFlip, frame: &mut Frame, action: FlipAction| #[trigger]
            call_ensures(PageFlip::resume, (flip, frame, FlipReply::CrtcSet), action) ==> {
                &&& action == FlipAction::Done
                &&& final(flip).stage == FlipStage::Finished
                &&& final(flip).next_bo == (*flip).next_bo
                &&& final(frame).bo == Some((*flip).next_bo)
                &&& final(frame).crtc == (*frame).crtc
                &&& final(frame).connector == (*frame).connector
                &&& final(frame).encoder == (*frame).encoder
                &&& final(frame).mode == (*frame).mode
            },
        forall|flip: &mut PageFlip, frame: &mut Frame, action: FlipAction| #[trigger]
            call_ensures(PageFlip::resume, (flip, frame, FlipReply::Queued), action) ==> {
                &&& action == FlipAction::ReceiveEvents
                &&& final(flip).stage == FlipStage::Waiting
                &&& final(flip).next_bo == (*flip).next_bo
                &&& *final(frame) == *frame
            },
{
}

/// Whether a flip is complete does not depend on how the reports are dealt out: a batch
/// completes it exactly where one of its parts does.
pub proof fn law_batches_can_be_split(a: Seq<CrtcEvent>, b: Seq<CrtcEvent>)
    ensures
        flip_complete(a + b) <==> flip_complete(a) || flip_complete(b),
        flip_complete(a + b) <==> flip_complete(b + a),
        flip_complete(seq![CrtcEvent::PageFlip]),
        !flip_complete(seq![CrtcEvent::Vblank]),
        !flip_complete(seq![CrtcEvent::Unknown]),
        !flip_complete(Seq::<CrtcEvent>::empty()),
{
    if flip_complete(a) {
        let i = choose|i: int| 0 <= i < a.len() && #[trigger] a[i] is PageFlip;
        assert((a + b)[i] is PageFlip);
        assert((b + a)[b.len() + i] is PageFlip);
    }
    if flip_complete(b) {
        let i = choose|i: int| 0 <= i < b.len() && #[trigger] b[i] is PageFlip;
        assert((a + b)[a.len() + i] is PageFlip);
        assert((b + a)[i] is PageFlip);
    }
    if flip_complete(a + b) {
        let i = choose|i: int| 0 <= i < (a + b).len() && #[trigger] (a + b)[i] is PageFlip;
        if i < a.len() {
            assert(a[i] is PageFlip);
        } else {
            assert(b[i - a.len()] is PageFlip);
        }
    }
    if flip_complete(b + a) {
        let i = choose|i: int| 0 <= i < (b + a).len() && #[trigger] (b + a)[i] is PageFlip;
        if i < b.len() {
            assert(b[i] is PageFlip);
        } else {
            assert(a[i - b.len()] is PageFlip);
        }
    }
    assert(seq![CrtcEvent::PageFlip][0] is PageFlip);
}

/// As long as nothing is on display, a buffer is shown by setting up the controller of the
/// frame, at the origin of its connector and in its mode; as soon as something is, by a
/// flip on that controller. The flip is to the buffer that was given.
pub proof fn law_flip_begins_by_what_is_on_display(
    frame: Frame,
    next_bo: usize,
    framebuffer: u32,
    begun: (PageFlip, FlipAction),
)
    requires
        call_ensures(page_flip, (&frame, next_bo, framebuffer), begun),
    ensures
        begun.0.next_bo == next_bo,
        frame.bo is None ==> begun.0.stage == FlipStage::SettingCrtc && (begun.1 matches
            FlipAction::SetCrtc(config) && config.crtc == frame.crtc && config.framebuffer
            == framebuffer && config.connector == frame.connector && config.position == (0u32, 0u32)
            && config.mode == frame.mode),
        frame.bo is Some ==> begun.0.stage == FlipStage::Queueing && (begun.1 matches
            FlipAction::QueueFlip { crtc, framebuffer: queued } && crtc == frame.crtc && queued
            == framebuffer),
        begun.0.stage == first_stage(frame),
        begun.1 == first_action(frame, framebuffer),
{
}

/// There is a controller to set up exactly as long as nothing is on display, and it is
/// that of the frame.
pub proof fn law_controller_is_set_up_once(
    frame: Frame,
    framebuffer: u32,
    config: Option<CrtcConfig>,
)
    requires
        call_ensures(set_crtc, (&frame, framebuffer), config),
    ensures
        config is Some <==> frame.bo is None,
        config matches Some(config) ==> config.crtc == frame.crtc && config.framebuffer
            == framebuffer && config.connector == frame.connector && config.position == (0u32, 0u32)
            && config.mode == frame.mode,
{
}

/// The frame of a new window has nothing on display and is shown with what was given.
pub proof fn law_new_frame_shows_nothing(resources: Resources, frame: Frame)
    requires
        call_ensures(new_frame, (resources,), frame),
    ensures
        frame.bo is None,
        frame.crtc == resources.crtc,
        frame.connector == resources.connector,
        frame.encoder == resources.encoder,
        frame.mode == resources.mode,
{
}

/// A flip takes the answer to what it asked for and no other, and none once it is done.
pub proof fn law_flip_takes_the_answer_it_asked_for(reply: FlipReply, next: FlipReply)
    ensures
        forall|frame: Frame, next_bo: usize, framebuffer: u32, begun: (PageFlip, FlipAction)|
            #[trigger] call_ensures(page_flip, (&frame, next_bo, framebuffer), begun) ==> {
                &&& begun.1 is SetCrtc ==> (flip_expects(begun.0.stage, next) <==> next is CrtcSet)
                &&& begun.1 is QueueFlip ==> (flip_expects(begun.0.stage, next) <==> next is Queued)
                &&& begun.1 is SetCrtc || begun.1 is QueueFlip
            },
        forall|flip: &mut PageFlip, frame: &mut Frame, action: FlipAction| #[trigger]
            call_ensures(PageFlip::resume, (flip, frame, reply), action) ==> {
                &&& action is ReceiveEvents ==> (flip_expects(final(flip).stage, next)
                    <==> next is Events)
                &&& action is Done ==> !flip_expects(final(flip).stage, next)
                &&& action is ReceiveEvents || action is Done
            },
{
}

} // verus!
