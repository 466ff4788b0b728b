//! Waiting for the device: the reply queue, the cache it fills and the
//! queue of failures that the device reported.

use std::collections::VecDeque;
use vstd::prelude::*;
use crate::{BufferHandle, DeviceError, ShaderHandle, TextureHandle, Token};
use crate::device::{ArrayBuffer, Buffer, FrameBuffer, Reply, Shader, Texture};
use crate::device::shade::CreateShaderError;
use crate::resource::{lemma_apply, reply_failure, Cache, Future, Kind, Tables};

verus! {

/// A set of slots, each named by its kind and token.
pub type Needs = Set<(Kind, int)>;

impl Tables {
    /// Whether every slot in `needs` has been handed out and answered.
    pub open spec fn ready(self, needs: Needs) -> bool {
        forall|kind: Kind, token: int| #[trigger]
            needs.contains((kind, token)) ==> self.resolved(kind, token)
    }
}

/// Mathematical content of a `Dispatcher`.
pub struct Mail {
    /// Replies that arrived and were not applied yet, oldest first.
    pub channel: Seq<Reply>,
    /// Failures reported by the replies applied so far and not yet collected.
    pub errors: Seq<DeviceError>,
    pub tables: Tables,
}

impl Mail {
    /// Every waiting reply addresses a token that was handed out.
    pub open spec fn wf(self) -> bool {
        forall|i: int| 0 <= i < self.channel.len() ==> self.tables.knows(#[trigger] self.channel[i])
    }

    /// The state after the oldest waiting reply was taken from the channel
    /// and applied; a failure it reports is appended to the error queue.
    pub open spec fn step(self) -> Mail
        recommends
            self.channel.len() > 0,
    {
        let reply = self.channel[0];
        Mail {
            channel: self.channel.skip(1),
            errors: match reply_failure(reply) {
                Some(error) => self.errors.push(error),
                None => self.errors,
            },
            tables: self.tables.apply(reply),
        }
    }

    /// The state after `count` waiting replies were applied in order.
    pub open spec fn steps(self, count: nat) -> Mail
        decreases count,
    {
        if count == 0 {
            self
        } else {
            self.step().steps((count - 1) as nat)
        }
    }

    /// The state in which a wait for `needs` ends: replies are applied one
    /// at a time, oldest first, and only for as long as some slot in `needs`
    /// is unanswered and a reply is waiting.
    pub open spec fn demanded(self, needs: Needs) -> Mail
        decreases self.channel.len(),
    {
        if self.tables.ready(needs) || self.channel.len() == 0 {
            self
        } else {
            self.step().demanded(needs)
        }
    }

    /// How many replies a wait for `needs` applies.
    pub open spec fn demand_len(self, needs: Needs) -> nat
        decreases self.channel.len(),
    {
        if self.tables.ready(needs) || self.channel.len() == 0 {
            0
        } else {
            1 + self.step().demand_len(needs)
        }
    }
}

/// Whether two caches have handed out the same tokens.
pub open spec fn same_sizes(a: Tables, b: Tables) -> bool {
    forall|kind: Kind| #[trigger] a.len(kind) == b.len(kind)
}

/// Whether `fn_ready` can say no to a cache with these tables.
pub open spec fn denied<F: Fn(&Cache) -> bool>(fn_ready: F, tables: Tables) -> bool {
    exists|cache: Cache| cache@ == tables && #[trigger] fn_ready.ensures((&cache,), false)
}

/// Owns the cache, the replies received from the device and the queue of
/// failures the device reported.
pub struct Dispatcher {
    /// Replies received from the device and not applied yet, oldest first.
    pub channel: VecDeque<Reply>,
    /// Asynchronous device error queue.
    pub errors: Vec<DeviceError>,
    /// Resolution state of every device-side object.
    pub resource: Cache,
}

impl View for Dispatcher {
    type V = Mail;

    open spec fn view(&self) -> Mail {
        Mail { channel: self.channel@, errors: self.errors@, tables: self.resource@ }
    }
}

impl Dispatcher {
    /// A dispatcher over `resource` with no reply waiting and no failure
    /// queued.
    pub fn new(resource: Cache) -> (dispatcher: Dispatcher)
        ensures
            dispatcher@ == (Mail {
                channel: Seq::empty(),
                errors: Seq::empty(),
                tables: resource@,
            }),
            dispatcher@.wf(),
    {
        Dispatcher { channel: VecDeque::new(), errors: Vec::new(), resource }
    }

    /// Whether `reply` addresses a token that was handed out, so that it can
    /// be delivered.
    pub fn accepts(&self, reply: &Reply) -> (b: bool)
        ensures
            b == self@.tables.knows(*reply),
    {
        self.resource.knows(reply)
    }

    /// Puts a reply received from the device at the end of the channel.
    pub fn deliver(&mut self, reply: Reply)
        requires
            old(self)@.wf(),
            old(self)@.tables.knows(reply),
        ensures
            final(self)@ == (Mail { channel: old(self)@.channel.push(reply), ..old(self)@ }),
            final(self)@.wf(),
    {
        self.channel.push_back(reply);
    }

    /// Waits until `fn_ready` holds of the cache: as long as it does not,
    /// the oldest waiting reply is taken from the channel and applied, and
    /// a failure it reports is queued. Returns what `fn_ready` says of the
    /// cache in the end; when that is `false`, no reply is left, and the
    /// caller has to deliver more replies and ask again.
    ///
    /// Replies that have nothing to do with `fn_ready` are applied as they
    /// come, so that the cache is as up to date as the channel allows.
    pub fn demand<F: Fn(&Cache) -> bool>(&mut self, fn_ready: F) -> (ready: bool)
        requires
            old(self)@.wf(),
            forall|cache: Cache|
                same_sizes(cache@, old(self)@.tables) ==> #[trigger] fn_ready.requires((&cache,)),
        ensures
            final(self)@.wf(),
            fn_ready.ensures((&final(self).resource,), ready),
            !ready ==> final(self)@.channel.len() == 0,
            exists|count: nat|
                {
                    &&& count <= old(self)@.channel.len()
                    &&& final(self)@ == #[trigger] old(self)@.steps(count)
                    &&& forall|earlier: nat|
                        earlier < count ==> denied(
                            fn_ready,
                            (#[trigger] old(self)@.steps(earlier)).tables,
                        )
                },
    {
        let ghost mut count: nat = 0;
        let mut ready = fn_ready(&self.resource);
        while !ready && self.channel.len() > 0
            invariant
                old(self)@.wf(),
                self@.wf(),
                count <= old(self)@.channel.len(),
                self@ == old(self)@.steps(count),
                same_sizes(self@.tables, old(self)@.tables),
                forall|cache: Cache|
                    same_sizes(cache@, old(self)@.tables) ==> #[trigger] fn_ready.requires(
                        (&cache,),
                    ),
                fn_ready.ensures((&self.resource,), ready),
                forall|earlier: nat|
                    earlier < count ==> denied(
                        fn_ready,
                        (#[trigger] old(self)@.steps(earlier)).tables,
                    ),
            decreases self.channel.len(),
        {
            proof {
                lemma_steps(old(self)@, count);
                lemma_step_wf(self@);
                assert(denied(fn_ready, old(self)@.steps(count).tables)) by {
                    assert(self.resource@ == old(self)@.steps(count).tables);
                }
                count = count + 1;
            }
            let ghost before = self@;
            let reply = self.channel.pop_front().unwrap();
            match self.resource.process(reply) {
                Ok(_) => (),
                Err(e) => self.errors.push(e),
            }
            proof {
                assert(self@ == before.step());
                assert forall|kind: Kind| #[trigger]
                    self@.tables.len(kind) == old(self)@.tables.len(kind) by {
                    assert(before.step().tables.len(kind) == before.tables.len(kind));
                    assert(before.tables.len(kind) == old(self)@.tables.len(kind));
                }
            }
            ready = fn_ready(&self.resource);
        }
        ready
    }

    /// Waits for the slot of `token` in the table of `kind`: applies waiting
    /// replies, oldest first, until that slot is answered or no reply is
    /// left. Returns whether the slot is answered.
    pub fn demand_slot(&mut self, kind: Kind, token: Token) -> (ready: bool)
        requires
            old(self)@.wf(),
            old(self)@.tables.has(kind, token as int),
        ensures
            final(self)@ == old(self)@.demanded(set![(kind, token as int)]),
            final(self)@.wf(),
            final(self)@.tables.has(kind, token as int),
            forall|other: Kind| #[trigger]
                final(self)@.tables.len(other) == old(self)@.tables.len(other),
            ready == final(self)@.tables.resolved(kind, token as int),
            !ready ==> final(self)@.channel.len() == 0,
    {
        let ghost needs: Needs = set![(kind, token as int)];
        let fn_ready = |res: &Cache| -> (b: bool)
            requires
                res@.has(kind, token as int),
            ensures
                b == res@.resolved(kind, token as int),
            { !res.is_pending(kind, token) };
        let ready = self.demand(fn_ready);
        proof {
            lemma_demanded(old(self)@, needs);
            let count = choose|count: nat|
                {
                    &&& count <= old(self)@.channel.len()
                    &&& self@ == #[trigger] old(self)@.steps(count)
                    &&& forall|earlier: nat|
                        earlier < count ==> denied(
                            fn_ready,
                            (#[trigger] old(self)@.steps(earlier)).tables,
                        )
                };
            assert forall|earlier: nat| earlier < count implies !(#[trigger] old(self)@.steps(
                earlier,
            )).tables.ready(needs) by {
                assert(denied(fn_ready, old(self)@.steps(earlier).tables));
                assert(needs.contains((kind, token as int)));
            }
            lemma_steps(old(self)@, count);
            if ready {
                assert(self@.tables.ready(needs));
            }
            lemma_steps_demanded(old(self)@, needs, count);
        }
        ready
    }

    /// Waits for a buffer and returns a copy of its slot. The slot is
    /// `Pending` only if no reply is left and the buffer is still unanswered.
    pub fn get_buffer(&mut self, handle: BufferHandle) -> (slot: Future<Buffer, ()>)
        requires
            old(self)@.wf(),
            old(self)@.tables.has(Kind::Buffer, handle as int),
        ensures
            final(self)@ == old(self)@.demanded(set![(Kind::Buffer, handle as int)]),
            final(self)@.wf(),
            final(self)@.tables.has(Kind::Buffer, handle as int),
            forall|other: Kind| #[trigger]
                final(self)@.tables.len(other) == old(self)@.tables.len(other),
            slot == final(self)@.tables.buffers[handle as int],
            slot is Pending ==> final(self)@.channel.len() == 0,
    {
        self.demand_slot(Kind::Buffer, handle);
        self.resource.buffers[handle]
    }

    /// Waits for the vertex layout object shared by all meshes and returns
    /// a copy of its slot.
    pub fn get_common_array_buffer(&mut self) -> (slot: Future<ArrayBuffer, ()>)
        requires
            old(self)@.wf(),
            old(self)@.tables.has(Kind::ArrayBuffer, 0),
        ensures
            final(self)@ == old(self)@.demanded(set![(Kind::ArrayBuffer, 0int)]),
            final(self)@.wf(),
            final(self)@.tables.has(Kind::ArrayBuffer, 0),
            forall|other: Kind| #[trigger]
                final(self)@.tables.len(other) == old(self)@.tables.len(other),
            slot == final(self)@.tables.array_buffers[0],
            slot is Pending ==> final(self)@.channel.len() == 0,
    {
        self.demand_slot(Kind::ArrayBuffer, 0);
        self.resource.array_buffers[0]
    }

    /// Waits for a shader and returns a copy of its slot.
    pub fn get_shader(&mut self, handle: ShaderHandle) -> (slot: Future<Shader, CreateShaderError>)
        requires
            old(self)@.wf(),
            old(self)@.tables.has(Kind::Shader, handle as int),
        ensures
            final(self)@ == old(self)@.demanded(set![(Kind::Shader, handle as int)]),
            final(self)@.wf(),
            final(self)@.tables.has(Kind::Shader, handle as int),
            forall|other: Kind| #[trigger]
                final(self)@.tables.len(other) == old(self)@.tables.len(other),
            slot == final(self)@.tables.shaders[handle as int],
            slot is Pending ==> final(self)@.channel.len() == 0,
    {
        self.demand_slot(Kind::Shader, handle);
        match &self.resource.shaders[handle] {
            Future::Pending => Future::Pending,
            Future::Loaded(shader) => Future::Loaded(*shader),
            Future::Failed(error) => Future::Failed(error.duplicate()),
        }
    }

    /// Waits for the frame buffer object shared by all frames and returns a
    /// copy of its slot.
    pub fn get_common_frame_buffer(&mut self) -> (slot: Future<FrameBuffer, ()>)
        requires
            old(self)@.wf(),
            old(self)@.tables.has(Kind::FrameBuffer, 0),
        ensures
            final(self)@ == old(self)@.demanded(set![(Kind::FrameBuffer, 0int)]),
            final(self)@.wf(),
            final(self)@.tables.has(Kind::FrameBuffer, 0),
            forall|other: Kind| #[trigger]
                final(self)@.tables.len(other) == old(self)@.tables.len(other),
            slot == final(self)@.tables.frame_buffers[0],
            slot is Pending ==> final(self)@.channel.len() == 0,
    {
        self.demand_slot(Kind::FrameBuffer, 0);
        self.resource.frame_buffers[0]
    }

    /// Waits for a texture and returns a copy of its slot.
    pub fn get_texture(&mut self, handle: TextureHandle) -> (slot: Future<Texture, ()>)
        requires
            old(self)@.wf(),
            old(self)@.tables.has(Kind::Texture, handle as int),
        ensures
            final(self)@ == old(self)@.demanded(set![(Kind::Texture, handle as int)]),
            final(self)@.wf(),
            final(self)@.tables.has(Kind::Texture, handle as int),
            forall|other: Kind| #[trigger]
                final(self)@.tables.len(other) == old(self)@.tables.len(other),
            slot == final(self)@.tables.textures[handle as int],
            slot is Pending ==> final(self)@.channel.len() == 0,
    {
        self.demand_slot(Kind::Texture, handle);
        self.resource.textures[handle]
    }

    /// Waits for one more slot after a wait for the slots in `held`, which
    /// started in the state `origin`: together the two waits are one wait
    /// for all of them. `ready` tells whether the slots in `held` are
    /// answered; the result tells the same of all the slots.
    pub(crate) fn demand_also(
        &mut self,
        kind: Kind,
        token: Token,
        ready: bool,
        Ghost(origin): Ghost<Mail>,
        Ghost(held): Ghost<Needs>,
    ) -> (all: bool)
        requires
            origin.wf(),
            old(self)@ == origin.demanded(held),
            old(self)@.tables.has(kind, token as int),
            ready == old(self)@.tables.ready(held),
            !ready ==> old(self)@.channel.len() == 0,
        ensures
            final(self)@ == origin.demanded(held.insert((kind, token as int))),
            final(self)@.wf(),
            forall|other: Kind| #[trigger]
                final(self)@.tables.len(other) == old(self)@.tables.len(other),
            all == final(self)@.tables.ready(held.insert((kind, token as int))),
            !all ==> final(self)@.channel.len() == 0,
    {
        let ghost one: Needs = set![(kind, token as int)];
        proof {
            lemma_demanded(origin, held);
            lemma_demanded(self@, one);
            lemma_demanded_twice(origin, held, one);
            assert(held.union(one) =~= held.insert((kind, token as int)));
        }
        let answered = self.demand_slot(kind, token);
        proof {
            lemma_ready_union(self@.tables, held, one);
            if answered {
                assert(self@.tables.ready(one));
            } else {
                assert(one.contains((kind, token as int)));
            }
            if ready {
                assert forall|k: Kind, t: int| #[trigger] held.contains((k, t)) implies self@.tables.resolved(
                    k,
                    t,
                ) by {
                    assert(old(self)@.tables.resolved(k, t));
                }
            }
        }
        ready && answered
    }
}

/// Slots that are all answered stay so when a reply is applied.
pub proof fn lemma_ready_step(mail: Mail, needs: Needs)
    requires
        mail.wf(),
        mail.channel.len() > 0,
        mail.tables.ready(needs),
    ensures
        mail.step().tables.ready(needs),
{
    lemma_apply(mail.tables, mail.channel[0]);
}

/// A union of needs is answered exactly when both parts are.
pub proof fn lemma_ready_union(tables: Tables, a: Needs, b: Needs)
    ensures
        tables.ready(a.union(b)) == (tables.ready(a) && tables.ready(b)),
{
    if tables.ready(a) && tables.ready(b) {
        assert(tables.ready(a.union(b)));
    }
    if tables.ready(a.union(b)) {
        assert forall|kind: Kind, token: int| #[trigger] a.contains((kind, token)) implies tables.resolved(
            kind,
            token,
        ) by {
            assert(a.union(b).contains((kind, token)));
        }
        assert forall|kind: Kind, token: int| #[trigger] b.contains((kind, token)) implies tables.resolved(
            kind,
            token,
        ) by {
            assert(a.union(b).contains((kind, token)));
        }
    }
}

/// What a wait leaves behind: it applies the first `demand_len` waiting
/// replies and no others, keeps the tables' sizes and the answered slots,
/// and ends with every needed slot answered or with no reply left.
pub proof fn lemma_demanded(mail: Mail, needs: Needs)
    requires
        mail.wf(),
    ensures
        mail.demanded(needs).wf(),
        mail.demand_len(needs) <= mail.channel.len(),
        mail.demanded(needs) == mail.steps(mail.demand_len(needs)),
        mail.demanded(needs).channel == mail.channel.skip(mail.demand_len(needs) as int),
        mail.demanded(needs).tables.ready(needs) || mail.demanded(needs).channel.len() == 0,
        forall|kind: Kind| #[trigger] mail.demanded(needs).tables.len(kind) == mail.tables.len(kind),
        forall|kind: Kind, token: int| #[trigger]
            mail.tables.resolved(kind, token) ==> mail.demanded(needs).tables.resolved(kind, token),
    decreases mail.channel.len(),
{
    if mail.tables.ready(needs) || mail.channel.len() == 0 {
        assert(mail.channel.skip(0) =~= mail.channel);
    } else {
        lemma_step_wf(mail);
        lemma_apply(mail.tables, mail.channel[0]);
        lemma_demanded(mail.step(), needs);
        let n = mail.step().demand_len(needs);
        assert(mail.channel.skip(1).skip(n as int) =~= mail.channel.skip(1 + n as int));
        assert forall|kind: Kind| #[trigger]
            mail.demanded(needs).tables.len(kind) == mail.tables.len(kind) by {
            assert(mail.step().tables.len(kind) == mail.tables.len(kind));
        }
        assert forall|kind: Kind, token: int| #[trigger]
            mail.tables.resolved(kind, token) implies mail.demanded(needs).tables.resolved(
            kind,
            token,
        ) by {
            assert(mail.step().tables.resolved(kind, token));
        }
    }
}

/// Applying waiting replies takes them from the front of the channel one
/// by one: after `count` of them, the channel has lost its first `count`
/// replies, and one more reply is the next in the channel, applied to
/// the tables as they then are.
pub proof fn lemma_steps(mail: Mail, count: nat)
    requires
        mail.wf(),
        count <= mail.channel.len(),
    ensures
        mail.steps(count).wf(),
        mail.steps(count).channel == mail.channel.skip(count as int),
        count < mail.channel.len() ==> mail.steps(count + 1) == mail.steps(count).step()
            && mail.steps(count).channel[0] == mail.channel[count as int],
    decreases count,
{
    if count == 0 {
        assert(mail.channel.skip(0) =~= mail.channel);
        if mail.channel.len() > 0 {
            assert(mail.steps(1) == mail.step().steps(0));
        }
    } else {
        lemma_step_wf(mail);
        lemma_steps(mail.step(), (count - 1) as nat);
        assert(mail.channel.skip(1).skip(count - 1) =~= mail.channel.skip(count as int));
    }
}

/// Applying replies for as long as the needed slots are unanswered is a
/// wait for them: if none of the states before `count` replies has them
/// answered, and the state after `count` replies has, or no reply is left,
/// then a wait ends in that state.
pub proof fn lemma_steps_demanded(mail: Mail, needs: Needs, count: nat)
    requires
        mail.wf(),
        count <= mail.channel.len(),
        forall|earlier: nat|
            earlier < count ==> !(#[trigger] mail.steps(earlier)).tables.ready(needs),
        mail.steps(count).tables.ready(needs) || count == mail.channel.len(),
    ensures
        mail.steps(count) == mail.demanded(needs),
        count == mail.demand_len(needs),
    decreases count,
{
    if count == 0 {
    } else {
        assert(mail.steps(0) == mail);
        lemma_step_wf(mail);
        assert forall|earlier: nat| earlier < count - 1 implies !(#[trigger] mail.step().steps(
            earlier,
        )).tables.ready(needs) by {
            assert(mail.steps(earlier + 1) == mail.step().steps(earlier));
        }
        lemma_steps_demanded(mail.step(), needs, (count - 1) as nat);
    }
}

/// A wait does not end early and does not go on for nothing: it ends in
/// the first state, along the replies in the order of the channel, in
/// which every needed slot is answered, or with the channel empty when
/// there is no such state.
pub proof fn law_demand_waits(mail: Mail, needs: Needs)
    requires
        mail.wf(),
    ensures
        mail.demanded(needs) == mail.steps(mail.demand_len(needs)),
        mail.demand_len(needs) <= mail.channel.len(),
        forall|count: nat|
            count < mail.demand_len(needs) ==> !(#[trigger] mail.steps(count)).tables.ready(needs),
        mail.demanded(needs).tables.ready(needs) || mail.demand_len(needs) == mail.channel.len(),
        mail.tables.ready(needs) ==> mail.demanded(needs) == mail,
    decreases mail.channel.len(),
{
    lemma_demanded(mail, needs);
    if mail.tables.ready(needs) || mail.channel.len() == 0 {
    } else {
        lemma_step_wf(mail);
        law_demand_waits(mail.step(), needs);
        assert forall|count: nat| count < mail.demand_len(needs) implies !(#[trigger] mail.steps(
            count,
        )).tables.ready(needs) by {
            if count > 0 {
                assert(mail.steps(count) == mail.step().steps((count - 1) as nat));
            }
        }
    }
}

/// Once the slots in `held` are answered, waiting for `needs` is the same
/// as waiting for both.
pub proof fn lemma_demanded_absorbs(mail: Mail, held: Needs, needs: Needs)
    requires
        mail.wf(),
        mail.tables.ready(held),
    ensures
        mail.demanded(needs) == mail.demanded(held.union(needs)),
    decreases mail.channel.len(),
{
    lemma_ready_union(mail.tables, held, needs);
    if mail.tables.ready(needs) || mail.channel.len() == 0 {
    } else {
        lemma_step_wf(mail);
        lemma_ready_step(mail, held);
        lemma_demanded_absorbs(mail.step(), held, needs);
    }
}

/// Waiting for `first` and then for `second` ends in the state in which one
/// wait for both ends.
pub proof fn lemma_demanded_twice(mail: Mail, first: Needs, second: Needs)
    requires
        mail.wf(),
    ensures
        mail.demanded(first).demanded(second) == mail.demanded(first.union(second)),
    decreases mail.channel.len(),
{
    lemma_ready_union(mail.tables, first, second);
    if mail.channel.len() == 0 {
    } else if mail.tables.ready(first) {
        lemma_demanded_absorbs(mail, first, second);
    } else {
        lemma_step_wf(mail);
        lemma_demanded_twice(mail.step(), first, second);
    }
}

/// Two waits in a row that each report whether their slots are answered
/// amount to one wait for all the slots, which are answered exactly if both
/// waits said so.
pub proof fn lemma_two_waits(origin: Mail, first: Needs, second: Needs)
    requires
        origin.wf(),
        !origin.demanded(first).tables.ready(first) ==> origin.demanded(first).channel.len() == 0,
    ensures
        origin.demanded(first).demanded(second) == origin.demanded(first.union(second)),
        origin.demanded(first.union(second)).tables.ready(first.union(second)) == (origin.demanded(
            first,
        ).tables.ready(first) && origin.demanded(first).demanded(second).tables.ready(second)),
{
    let middle = origin.demanded(first);
    let end = middle.demanded(second);
    lemma_demanded(origin, first);
    lemma_demanded(middle, second);
    lemma_demanded_twice(origin, first, second);
    lemma_ready_union(end.tables, first, second);
    if middle.tables.ready(first) {
        assert forall|k: Kind, t: int| #[trigger] first.contains((k, t)) implies end.tables.resolved(
            k,
            t,
        ) by {
            assert(middle.tables.resolved(k, t));
        }
    }
}

/// A wait for slots that are all answered changes nothing.
pub proof fn lemma_demanded_ready(mail: Mail, needs: Needs)
    requires
        mail.tables.ready(needs) || mail.channel.len() == 0,
    ensures
        mail.demanded(needs) == mail,
{
}

/// Applying the oldest waiting reply keeps the tables' sizes, so the replies
/// that remain still address tokens that were handed out.
pub proof fn lemma_step_wf(mail: Mail)
    requires
        mail.wf(),
        mail.channel.len() > 0,
    ensures
        mail.step().wf(),
        forall|kind: Kind| mail.step().tables.len(kind) == mail.tables.len(kind),
        mail.step().channel.len() == mail.channel.len() - 1,
{
    assert(mail.tables.knows(mail.channel[0]));
    assert forall|i: int| 0 <= i < mail.step().channel.len() implies mail.step().tables.knows(
        #[trigger] mail.step().channel[i],
    ) by {
        assert(mail.step().channel[i] == mail.channel[i + 1]);
        assert(mail.tables.knows(mail.channel[i + 1]));
    }
}

} // verus!
