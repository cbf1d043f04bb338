//! The coordination state machine of a node.
//!
//! The caller waits on its sources (the queue of console lines, discovery,
//! the request/response protocol) and hands each event, as it becomes ready,
//! to [`Coordinator::handle`]. The coordinator updates the peer set and
//! answers with the actions to perform, in order. It performs none itself:
//! sending and printing are the caller's.
use crate::peers::{after_discover, after_expire, PeerIdentity, PeerKey, PeerSet};
use vstd::prelude::*;

verus! {

/// The text of the response that answers every inbound request.
pub const ACKNOWLEDGMENT: &'static str = "alive";

/// Something for the operator to read. How it is worded is the caller's
/// matter.
#[derive(Debug, PartialEq, Eq)]
pub enum Notice {
    /// A line was dropped because no peer is known.
    NoPeers,
    /// A line is about to be sent to a peer.
    Sending { peer: PeerIdentity, text: String },
    /// The node listens on an address.
    Listening { address: String },
    /// Discovery reported a peer as reachable.
    Discovered { peer: PeerIdentity },
    /// Discovery reported a peer as expired.
    Expired { peer: PeerIdentity },
    /// A request came in.
    Request { text: String },
    /// A response came in.
    Response { text: String },
    /// A response could not be handed to its channel.
    ResponseUndelivered { text: String },
}

/// What a [`Notice`] is to the contracts.
pub enum NoticeView {
    NoPeers,
    Sending { peer: PeerKey, text: Seq<char> },
    Listening { address: Seq<char> },
    Discovered { peer: PeerKey },
    Expired { peer: PeerKey },
    Request { text: Seq<char> },
    Response { text: Seq<char> },
    ResponseUndelivered { text: Seq<char> },
}

impl View for Notice {
    type V = NoticeView;

    open spec fn view(&self) -> NoticeView {
        match *self {
            Notice::NoPeers => NoticeView::NoPeers,
            Notice::Sending { peer, text } => NoticeView::Sending { peer: peer@, text: text@ },
            Notice::Listening { address } => NoticeView::Listening { address: address@ },
            Notice::Discovered { peer } => NoticeView::Discovered { peer: peer@ },
            Notice::Expired { peer } => NoticeView::Expired { peer: peer@ },
            Notice::Request { text } => NoticeView::Request { text: text@ },
            Notice::Response { text } => NoticeView::Response { text: text@ },
            Notice::ResponseUndelivered { text } => NoticeView::ResponseUndelivered { text: text@ },
        }
    }
}

/// What became ready. `C` is the channel on which a request is answered: a
/// value that the caller got with the request and that is used up by the one
/// response sent on it.
#[derive(Debug, PartialEq, Eq)]
pub enum Event<C> {
    /// The next line from the console queue.
    Line(String),
    /// Discovery reports these peers as reachable.
    Discovered(Vec<PeerIdentity>),
    /// Discovery reports these peers as expired.
    Expired(Vec<PeerIdentity>),
    /// The listener is bound to this address.
    Listening(String),
    /// A peer sent a request.
    Request { text: String, channel: C },
    /// A peer answered a request.
    Response(String),
    /// A response that was to be sent found its channel closed.
    ResponseUndelivered(String),
    /// Anything else that the network reports.
    Other,
}

/// What an [`Event`] is to the contracts.
pub enum EventView<C> {
    Line(Seq<char>),
    Discovered(Seq<PeerKey>),
    Expired(Seq<PeerKey>),
    Listening(Seq<char>),
    Request { text: Seq<char>, channel: C },
    Response(Seq<char>),
    ResponseUndelivered(Seq<char>),
    Other,
}

impl<C> View for Event<C> {
    type V = EventView<C>;

    open spec fn view(&self) -> EventView<C> {
        match *self {
            Event::Line(text) => EventView::Line(text@),
            Event::Discovered(ids) => EventView::Discovered(ids.deep_view()),
            Event::Expired(ids) => EventView::Expired(ids.deep_view()),
            Event::Listening(address) => EventView::Listening(address@),
            Event::Request { text, channel } => EventView::Request { text: text@, channel },
            Event::Response(text) => EventView::Response(text@),
            Event::ResponseUndelivered(text) => EventView::ResponseUndelivered(text@),
            Event::Other => EventView::Other,
        }
    }
}

/// One thing for the caller to do.
#[derive(Debug, PartialEq, Eq)]
pub enum Action<C> {
    /// Tell the operator.
    Notify(Notice),
    /// Send a request with this text to this peer.
    SendRequest { peer: PeerIdentity, text: String },
    /// Send a response with this text on this channel.
    SendResponse { channel: C, text: String },
}

/// What an [`Action`] is to the contracts.
pub enum ActionView<C> {
    Notify(NoticeView),
    SendRequest { peer: PeerKey, text: Seq<char> },
    SendResponse { channel: C, text: Seq<char> },
}

impl<C> View for Action<C> {
    type V = ActionView<C>;

    open spec fn view(&self) -> ActionView<C> {
        match *self {
            Action::Notify(notice) => ActionView::Notify(notice@),
            Action::SendRequest { peer, text } => ActionView::SendRequest {
                peer: peer@,
                text: text@,
            },
            Action::SendResponse { channel, text } => ActionView::SendResponse {
                channel,
                text: text@,
            },
        }
    }
}

impl<C> DeepView for Action<C> {
    type V = ActionView<C>;

    open spec fn deep_view(&self) -> ActionView<C> {
        self@
    }
}

/// The peers after discovery has reported each of `ids`, in order.
pub open spec fn after_discover_all(peers: Seq<PeerKey>, ids: Seq<PeerKey>) -> Seq<PeerKey>
    decreases ids.len(),
{
    if ids.len() == 0 {
        peers
    } else {
        after_discover(after_discover_all(peers, ids.drop_last()), ids.last())
    }
}

/// The peers after discovery has reported each of `ids` as expired, in order.
pub open spec fn after_expire_all(peers: Seq<PeerKey>, ids: Seq<PeerKey>) -> Seq<PeerKey>
    decreases ids.len(),
{
    if ids.len() == 0 {
        peers
    } else {
        after_expire(after_expire_all(peers, ids.drop_last()), ids.last())
    }
}

/// The actions that send `text` to every one of `peers`, in their order: for
/// each peer a notice, then the request.
pub open spec fn broadcast<C>(peers: Seq<PeerKey>, text: Seq<char>) -> Seq<ActionView<C>>
    decreases peers.len(),
{
    if peers.len() == 0 {
        Seq::empty()
    } else {
        broadcast::<C>(peers.drop_last(), text).push(
            ActionView::Notify(NoticeView::Sending { peer: peers.last(), text }),
        ).push(ActionView::SendRequest { peer: peers.last(), text })
    }
}

/// The peer set that follows `peers` on `event`. Only discovery changes it.
pub open spec fn next_peers<C>(peers: Seq<PeerKey>, event: EventView<C>) -> Seq<PeerKey> {
    match event {
        EventView::Discovered(ids) => after_discover_all(peers, ids),
        EventView::Expired(ids) => after_expire_all(peers, ids),
        _ => peers,
    }
}

/// The actions with which a node whose peers are `peers` reacts to `event`.
pub open spec fn actions_for<C>(peers: Seq<PeerKey>, event: EventView<C>) -> Seq<ActionView<C>> {
    match event {
        EventView::Line(text) => if peers.len() == 0 {
            seq![ActionView::Notify(NoticeView::NoPeers)]
        } else {
            broadcast(peers, text)
        },
        EventView::Discovered(ids) => Seq::new(
            ids.len(),
            |i: int| ActionView::Notify(NoticeView::Discovered { peer: ids[i] }),
        ),
        EventView::Expired(ids) => Seq::new(
            ids.len(),
            |i: int| ActionView::Notify(NoticeView::Expired { peer: ids[i] }),
        ),
        EventView::Listening(address) => seq![ActionView::Notify(NoticeView::Listening { address })],
        EventView::Request { text, channel } => seq![
            ActionView::Notify(NoticeView::Request { text }),
            ActionView::SendResponse { channel, text: ACKNOWLEDGMENT@ },
        ],
        EventView::Response(text) => seq![ActionView::Notify(NoticeView::Response { text })],
        EventView::ResponseUndelivered(text) => seq![
            ActionView::Notify(NoticeView::ResponseUndelivered { text }),
        ],
        EventView::Other => Seq::empty(),
    }
}

/// The state of the coordination loop: the peer set, which it alone owns and
/// changes.
#[derive(Debug)]
pub struct Coordinator {
    peers: PeerSet,
}

impl View for Coordinator {
    type V = Seq<PeerKey>;

    /// The peers, first discovered first.
    closed spec fn view(&self) -> Seq<PeerKey> {
        self.peers@
    }
}

impl Coordinator {
    /// A node that knows no peer yet.
    pub fn new() -> (node: Coordinator)
        ensures
            node@ == Seq::<PeerKey>::empty(),
    {
        Coordinator { peers: PeerSet::new() }
    }

    /// The peer set.
    pub fn peers(&self) -> (peers: &PeerSet)
        ensures
            peers@ == self@,
    {
        &self.peers
    }

    /// The actions that send `line` to every peer.
    fn fan_out<C>(&self, line: &String) -> (actions: Vec<Action<C>>)
        ensures
            actions.deep_view() == broadcast::<C>(self@, line@),
    {
        let targets = self.peers.snapshot();
        let mut actions: Vec<Action<C>> = Vec::new();
        let mut i: usize = 0;
        assert(targets.deep_view().take(0) =~= Seq::<PeerKey>::empty());
        while i < targets.len()
            invariant
                i <= targets.len(),
                targets.deep_view() == self@,
                actions.deep_view() == broadcast::<C>(targets.deep_view().take(i as int), line@),
            decreases targets.len() - i,
        {
            let ghost sent = actions.deep_view();
            let ghost upto = targets.deep_view().take(i as int + 1);
            assert(upto.drop_last() =~= targets.deep_view().take(i as int));
            assert(upto.last() == targets[i as int]@);
            actions.push(
                Action::Notify(Notice::Sending { peer: targets[i].clone(), text: line.clone() }),
            );
            actions.push(Action::SendRequest { peer: targets[i].clone(), text: line.clone() });
            assert(actions.deep_view() =~= sent.push(
                ActionView::Notify(NoticeView::Sending { peer: upto.last(), text: line@ }),
            ).push(ActionView::SendRequest { peer: upto.last(), text: line@ }));
            i += 1;
        }
        assert(targets.deep_view().take(targets.len() as int) =~= targets.deep_view());
        actions
    }

    /// Takes each of `ids` into the peer set.
    fn discover_all<C>(&mut self, ids: Vec<PeerIdentity>) -> (actions: Vec<Action<C>>)
        ensures
            final(self)@ == after_discover_all(old(self)@, ids.deep_view()),
            actions.deep_view() == actions_for::<C>(
                old(self)@,
                EventView::Discovered(ids.deep_view()),
            ),
    {
        let ghost all = ids.deep_view();
        let mut actions: Vec<Action<C>> = Vec::new();
        let mut i: usize = 0;
        assert(all.take(0) =~= Seq::<PeerKey>::empty());
        while i < ids.len()
            invariant
                i <= ids.len(),
                all == ids.deep_view(),
                self@ == after_discover_all(old(self)@, all.take(i as int)),
                actions.len() == i,
                forall|k: int|
                    0 <= k < i ==> actions[k]@ == ActionView::<C>::Notify(
                        NoticeView::Discovered { peer: all[k] },
                    ),
            decreases ids.len() - i,
        {
            assert(all.take(i as int + 1).drop_last() =~= all.take(i as int));
            assert(all.take(i as int + 1).last() == ids[i as int]@);
            actions.push(Action::Notify(Notice::Discovered { peer: ids[i].clone() }));
            self.peers.discover(ids[i].clone());
            i += 1;
        }
        assert(all.take(ids.len() as int) =~= all);
        assert(actions.deep_view() =~= actions_for::<C>(old(self)@, EventView::Discovered(all)));
        actions
    }

    /// Takes each of `ids` out of the peer set.
    fn expire_all<C>(&mut self, ids: Vec<PeerIdentity>) -> (actions: Vec<Action<C>>)
        ensures
            final(self)@ == after_expire_all(old(self)@, ids.deep_view()),
            actions.deep_view() == actions_for::<C>(old(self)@, EventView::Expired(ids.deep_view())),
    {
        let ghost all = ids.deep_view();
        let mut actions: Vec<Action<C>> = Vec::new();
        let mut i: usize = 0;
        assert(all.take(0) =~= Seq::<PeerKey>::empty());
        while i < ids.len()
            invariant
                i <= ids.len(),
                all == ids.deep_view(),
                self@ == after_expire_all(old(self)@, all.take(i as int)),
                actions.len() == i,
                forall|k: int|
                    0 <= k < i ==> actions[k]@ == ActionView::<C>::Notify(
                        NoticeView::Expired { peer: all[k] },
                    ),
            decreases ids.len() - i,
        {
            assert(all.take(i as int + 1).drop_last() =~= all.take(i as int));
            assert(all.take(i as int + 1).last() == ids[i as int]@);
            actions.push(Action::Notify(Notice::Expired { peer: ids[i].clone() }));
            self.peers.expire(&ids[i]);
            i += 1;
        }
        assert(all.take(ids.len() as int) =~= all);
        assert(actions.deep_view() =~= actions_for::<C>(old(self)@, EventView::Expired(all)));
        actions
    }

    /// Reacts to one event: the peer set moves on, and the actions to perform
    /// come back, in the order in which they are to be performed.
    ///
    /// A line is sent to every peer known at this moment, or dropped with a
    /// notice if there is none; it is never kept for later. A request is
    /// answered at once, on its own channel, with [`ACKNOWLEDGMENT`].
    pub fn handle<C>(&mut self, event: Event<C>) -> (actions: Vec<Action<C>>)
        ensures
            final(self)@ == next_peers(old(self)@, event@),
            actions.deep_view() == actions_for(old(self)@, event@),
    {
        match event {
            Event::Line(text) => {
                if self.peers.is_empty() {
                    let mut actions: Vec<Action<C>> = Vec::new();
                    actions.push(Action::Notify(Notice::NoPeers));
                    assert(actions.deep_view() =~= seq![ActionView::<C>::Notify(NoticeView::NoPeers)]);
                    actions
                } else {
                    self.fan_out(&text)
                }
            },
            Event::Discovered(ids) => self.discover_all(ids),
            Event::Expired(ids) => self.expire_all(ids),
            Event::Listening(address) => {
                let ghost view = ActionView::<C>::Notify(NoticeView::Listening { address: address@ });
                let mut actions: Vec<Action<C>> = Vec::new();
                actions.push(Action::Notify(Notice::Listening { address }));
                assert(actions.deep_view() =~= seq![view]);
                actions
            },
            Event::Request { text, channel } => {
                let ghost first = ActionView::<C>::Notify(NoticeView::Request { text: text@ });
                let ghost second = ActionView::<C>::SendResponse { channel, text: ACKNOWLEDGMENT@ };
                let mut actions: Vec<Action<C>> = Vec::new();
                actions.push(Action::Notify(Notice::Request { text }));
                actions.push(Action::SendResponse { channel, text: ACKNOWLEDGMENT.to_owned() });
                assert(actions.deep_view() =~= seq![first, second]);
                actions
            },
            Event::Response(text) => {
                let ghost view = ActionView::<C>::Notify(NoticeView::Response { text: text@ });
                let mut actions: Vec<Action<C>> = Vec::new();
                actions.push(Action::Notify(Notice::Response { text }));
                assert(actions.deep_view() =~= seq![view]);
                actions
            },
            Event::ResponseUndelivered(text) => {
                let ghost view = ActionView::<C>::Notify(
                    NoticeView::ResponseUndelivered { text: text@ },
                );
                let mut actions: Vec<Action<C>> = Vec::new();
                actions.push(Action::Notify(Notice::ResponseUndelivered { text }));
                assert(actions.deep_view() =~= seq![view]);
                actions
            },
            Event::Other => {
                let actions: Vec<Action<C>> = Vec::new();
                assert(actions.deep_view() =~= Seq::<ActionView<C>>::empty());
                actions
            },
        }
    }
}

/// The requests among `actions`, in order: each with its target and text.
pub open spec fn requests_in<C>(actions: Seq<ActionView<C>>) -> Seq<(PeerKey, Seq<char>)>
    decreases actions.len(),
{
    if actions.len() == 0 {
        Seq::empty()
    } else {
        let before = requests_in(actions.drop_last());
        match actions.last() {
            ActionView::SendRequest { peer, text } => before.push((peer, text)),
            _ => before,
        }
    }
}

/// The responses among `actions`, in order: each with its channel and text.
pub open spec fn responses_in<C>(actions: Seq<ActionView<C>>) -> Seq<(C, Seq<char>)>
    decreases actions.len(),
{
    if actions.len() == 0 {
        Seq::empty()
    } else {
        let before = responses_in(actions.drop_last());
        match actions.last() {
            ActionView::SendResponse { channel, text } => before.push((channel, text)),
            _ => before,
        }
    }
}

/// A broadcast holds one request for each peer, in the peers' order, each
/// with the text, and no response.
pub proof fn lemma_broadcast_requests<C>(peers: Seq<PeerKey>, text: Seq<char>)
    ensures
        requests_in(broadcast::<C>(peers, text)) == Seq::new(
            peers.len(),
            |i: int| (peers[i], text),
        ),
        responses_in(broadcast::<C>(peers, text)) == Seq::<(C, Seq<char>)>::empty(),
    decreases peers.len(),
{
    if peers.len() == 0 {
        assert(requests_in(broadcast::<C>(peers, text)) =~= Seq::new(
            peers.len(),
            |i: int| (peers[i], text),
        ));
    } else {
        let init = peers.drop_last();
        let sent = broadcast::<C>(init, text);
        let noted = sent.push(ActionView::Notify(NoticeView::Sending { peer: peers.last(), text }));
        let all = noted.push(ActionView::SendRequest { peer: peers.last(), text });
        lemma_broadcast_requests::<C>(init, text);
        assert(noted.drop_last() =~= sent);
        assert(all.drop_last() =~= noted);
        assert(requests_in(noted) == requests_in(sent));
        assert(responses_in(noted) == responses_in(sent));
        assert(requests_in(all) == requests_in(sent).push((peers.last(), text)));
        assert(requests_in(all) =~= Seq::new(peers.len(), |i: int| (peers[i], text)));
    }
}

/// Broadcast fan-out: a line that arrives at a node with `n` peers makes
/// exactly `n` requests, one to each peer, each with the line's text. The
/// peer set stays as it is, and no response is sent.
pub proof fn lemma_line_fans_out<C>(peers: Seq<PeerKey>, text: Seq<char>)
    ensures
        requests_in(actions_for::<C>(peers, EventView::Line(text))) == Seq::new(
            peers.len(),
            |i: int| (peers[i], text),
        ),
        requests_in(actions_for::<C>(peers, EventView::Line(text))).len() == peers.len(),
        responses_in(actions_for::<C>(peers, EventView::Line(text))) == Seq::<
            (C, Seq<char>),
        >::empty(),
        next_peers::<C>(peers, EventView::Line(text)) == peers,
{
    let actions = actions_for::<C>(peers, EventView::Line(text));
    if peers.len() == 0 {
        lemma_notices_are_silent(actions);
        assert(requests_in(actions) =~= Seq::new(peers.len(), |i: int| (peers[i], text)));
    } else {
        lemma_broadcast_requests::<C>(peers, text);
    }
}

/// Empty-set drop: a line that arrives at a node without peers makes one
/// notice and no request. Nothing of the line is kept: the node is in the
/// state in which it was, and that state holds peers only.
pub proof fn lemma_line_dropped_without_peers<C>(text: Seq<char>)
    ensures
        actions_for::<C>(Seq::empty(), EventView::Line(text)) == seq![
            ActionView::<C>::Notify(NoticeView::NoPeers),
        ],
        requests_in(actions_for::<C>(Seq::empty(), EventView::Line(text))) == Seq::<
            (PeerKey, Seq<char>),
        >::empty(),
        next_peers::<C>(Seq::empty(), EventView::Line(text)) == Seq::<PeerKey>::empty(),
{
    lemma_line_fans_out::<C>(Seq::empty(), text);
    assert(requests_in(actions_for::<C>(Seq::empty(), EventView::Line(text))) =~= Seq::<
        (PeerKey, Seq<char>),
    >::empty());
}

/// Auto-acknowledgment: a request, whatever its text, is answered with
/// exactly one response, on the channel that came with it, and the response
/// reads [`ACKNOWLEDGMENT`]. No request goes out and the peer set stays.
pub proof fn lemma_request_acknowledged<C>(peers: Seq<PeerKey>, text: Seq<char>, channel: C)
    ensures
        responses_in(actions_for(peers, EventView::Request { text, channel })) == seq![
            (channel, ACKNOWLEDGMENT@),
        ],
        requests_in(actions_for(peers, EventView::Request { text, channel })) == Seq::<
            (PeerKey, Seq<char>),
        >::empty(),
        next_peers(peers, EventView::Request { text, channel }) == peers,
{
    let actions = actions_for(peers, EventView::Request { text, channel });
    let first = seq![ActionView::Notify(NoticeView::Request { text })];
    assert(actions.drop_last() =~= first);
    lemma_notices_are_silent(first);
    assert(responses_in(actions) =~= seq![(channel, ACKNOWLEDGMENT@)]);
}

/// A sequence of notices holds neither a request nor a response.
proof fn lemma_notices_are_silent<C>(actions: Seq<ActionView<C>>)
    requires
        forall|i: int| 0 <= i < actions.len() ==> actions[i] is Notify,
    ensures
        requests_in(actions) == Seq::<(PeerKey, Seq<char>)>::empty(),
        responses_in(actions) == Seq::<(C, Seq<char>)>::empty(),
    decreases actions.len(),
{
    if actions.len() > 0 {
        lemma_notices_are_silent(actions.drop_last());
    }
}

/// Responses answer requests only: an event that is no request makes none.
pub proof fn lemma_responses_answer_requests<C>(peers: Seq<PeerKey>, event: EventView<C>)
    requires
        !(event is Request),
    ensures
        responses_in(actions_for(peers, event)) == Seq::<(C, Seq<char>)>::empty(),
{
    match event {
        EventView::Line(text) => {
            lemma_line_fans_out::<C>(peers, text);
        },
        _ => {
            lemma_notices_are_silent(actions_for(peers, event));
        },
    }
}

/// Requests carry lines only: an event that is no line makes none.
pub proof fn lemma_requests_carry_lines<C>(peers: Seq<PeerKey>, event: EventView<C>)
    requires
        !(event is Line),
    ensures
        requests_in(actions_for(peers, event)) == Seq::<(PeerKey, Seq<char>)>::empty(),
{
    match event {
        EventView::Request { text, channel } => {
            lemma_request_acknowledged(peers, text, channel);
        },
        _ => {
            lemma_notices_are_silent(actions_for(peers, event));
        },
    }
}

/// After discovery has reported `ids`, the members are those of before and
/// `ids`, and none of them twice.
pub proof fn lemma_discover_all_members(peers: Seq<PeerKey>, ids: Seq<PeerKey>)
    requires
        peers.no_duplicates(),
    ensures
        after_discover_all(peers, ids).no_duplicates(),
        after_discover_all(peers, ids).to_set() == peers.to_set().union(ids.to_set()),
    decreases ids.len(),
{
    if ids.len() == 0 {
        assert(peers.to_set().union(ids.to_set()) =~= peers.to_set());
    } else {
        let init = ids.drop_last();
        lemma_discover_all_members(peers, init);
        crate::peers::lemma_discover_model(after_discover_all(peers, init), ids.last());
        assert(ids =~= init.push(ids.last()));
        init.lemma_push_to_set_commute(ids.last());
        assert(peers.to_set().union(init.to_set()).insert(ids.last()) =~= peers.to_set().union(
            ids.to_set(),
        ));
    }
}

/// After discovery has reported `ids` as expired, the members are those of
/// before that are not among `ids`, and none of them twice.
pub proof fn lemma_expire_all_members(peers: Seq<PeerKey>, ids: Seq<PeerKey>)
    requires
        peers.no_duplicates(),
    ensures
        after_expire_all(peers, ids).no_duplicates(),
        after_expire_all(peers, ids).to_set() == peers.to_set().difference(ids.to_set()),
    decreases ids.len(),
{
    if ids.len() == 0 {
        assert(peers.to_set().difference(ids.to_set()) =~= peers.to_set());
    } else {
        let init = ids.drop_last();
        lemma_expire_all_members(peers, init);
        crate::peers::lemma_expire_model(after_expire_all(peers, init), ids.last());
        assert(ids =~= init.push(ids.last()));
        init.lemma_push_to_set_commute(ids.last());
        assert(peers.to_set().difference(init.to_set()).remove(ids.last())
            =~= peers.to_set().difference(ids.to_set()));
    }
}

/// Whatever the event, a peer set without duplicates is followed by one
/// without; and only what discovery reports changes the members.
pub proof fn lemma_next_peers_members<C>(peers: Seq<PeerKey>, event: EventView<C>)
    requires
        peers.no_duplicates(),
    ensures
        next_peers(peers, event).no_duplicates(),
        next_peers(peers, event).to_set() == match event {
            EventView::Discovered(ids) => peers.to_set().union(ids.to_set()),
            EventView::Expired(ids) => peers.to_set().difference(ids.to_set()),
            _ => peers.to_set(),
        },
{
    match event {
        EventView::Discovered(ids) => {
            lemma_discover_all_members(peers, ids);
        },
        EventView::Expired(ids) => {
            lemma_expire_all_members(peers, ids);
        },
        _ => {},
    }
}

} // verus!
