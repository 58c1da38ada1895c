//! The sink buffers and networks write client-facing events and alerts into.
use vstd::prelude::*;
use crate::alert::{Alert, AlertV};
use crate::messages::{BufTarget, CoreBufMsg, CoreBufMsgV, CoreNetMsg, CoreNetMsgV, CoreMsg, CoreMsgV};
use crate::types::NetId;

verus! {

/// An `UpdateHandle` is passed to networks and buffers so they can send
/// messages to the user's connected clients without knowing the transport.
pub trait UpdateHandle<M>: Sized {
    fn send_clients(&mut self, msg: M);

    fn post_alert(&mut self, alert: Alert);
}

/// A basic update handle that queues messages and alerts for sending later.
pub struct BaseUpdateHandle<M> {
    msgs: Vec<M>,
    alerts: Vec<Alert>,
}

impl<M: DeepView> BaseUpdateHandle<M> {
    /// The messages queued so far, oldest first.
    pub closed spec fn queued_msgs(&self) -> Seq<M::V> {
        self.msgs.deep_view()
    }

    /// The alerts queued so far, oldest first.
    pub closed spec fn queued_alerts(&self) -> Seq<AlertV> {
        self.alerts.deep_view()
    }

    pub fn new() -> (r: Self)
        ensures
            r.queued_msgs() == Seq::<M::V>::empty(),
            r.queued_alerts() == Seq::<AlertV>::empty(),
    {
        let r = BaseUpdateHandle { msgs: Vec::new(), alerts: Vec::new() };
        proof {
            assert(r.queued_msgs() =~= Seq::<M::V>::empty());
            assert(r.queued_alerts() =~= Seq::<AlertV>::empty());
        }
        r
    }

    /// Takes the queued messages, leaving none behind.
    pub fn take_msgs(&mut self) -> (r: Vec<M>)
        ensures
            r.deep_view() == old(self).queued_msgs(),
            final(self).queued_msgs() == Seq::<M::V>::empty(),
            final(self).queued_alerts() == old(self).queued_alerts(),
    {
        let mut msgs: Vec<M> = Vec::new();
        core::mem::swap(&mut msgs, &mut self.msgs);
        proof {
            assert(self.queued_msgs() =~= Seq::<M::V>::empty());
        }
        msgs
    }

    /// Takes the queued alerts, leaving none behind.
    pub fn take_alerts(&mut self) -> (r: Vec<Alert>)
        ensures
            r.deep_view() == old(self).queued_alerts(),
            final(self).queued_alerts() == Seq::<AlertV>::empty(),
            final(self).queued_msgs() == old(self).queued_msgs(),
    {
        let mut alerts: Vec<Alert> = Vec::new();
        core::mem::swap(&mut alerts, &mut self.alerts);
        proof {
            assert(self.queued_alerts() =~= Seq::<AlertV>::empty());
        }
        alerts
    }
}

impl<M: DeepView> UpdateHandle<M> for BaseUpdateHandle<M> {
    /// Queues a message for the user's clients.
    fn send_clients(&mut self, msg: M)
        ensures
            final(self).queued_msgs() == old(self).queued_msgs().push(msg.deep_view()),
            final(self).queued_alerts() == old(self).queued_alerts(),
    {
        let ghost prev = self.queued_msgs();
        self.msgs.push(msg);
        proof {
            assert(self.queued_msgs() =~= prev.push(self.msgs@[self.msgs@.len() - 1].deep_view()));
        }
    }

    /// Queues an alert for the user.
    fn post_alert(&mut self, alert: Alert)
        ensures
            final(self).queued_alerts() == old(self).queued_alerts().push(alert@),
            final(self).queued_msgs() == old(self).queued_msgs(),
    {
        let ghost prev = self.queued_alerts();
        self.alerts.push(alert);
        proof {
            assert(self.queued_alerts() =~= prev.push(
                self.alerts@[self.alerts@.len() - 1].deep_view(),
            ));
        }
    }
}

/// A mapping from inner messages to an outer envelope, with an exact
/// specification of the envelope it builds.
pub trait MsgWrap<M: DeepView, N: DeepView>: Sized {
    spec fn wrap_spec(&self, m: M::V) -> N::V;

    fn wrap(&self, m: M) -> (r: N)
        ensures
            r.deep_view() == self.wrap_spec(m.deep_view()),
    ;
}

/// Wraps an update handle, enveloping every message with a mapping, so inner
/// components can emit events without knowing their outer envelope.
pub struct WrappedUpdateHandle<M: DeepView, N: DeepView, W: MsgWrap<M, N>> {
    func: W,
    inner: BaseUpdateHandle<N>,
    _inner_msg: core::marker::PhantomData<M>,
}

impl<M: DeepView, N: DeepView, W: MsgWrap<M, N>> WrappedUpdateHandle<M, N, W> {
    /// The enveloped messages queued so far, oldest first.
    pub closed spec fn queued_msgs(&self) -> Seq<N::V> {
        self.inner.queued_msgs()
    }

    /// The alerts queued so far, oldest first.
    pub closed spec fn queued_alerts(&self) -> Seq<AlertV> {
        self.inner.queued_alerts()
    }

    /// The mapping messages are enveloped with.
    pub closed spec fn wrap_fn(&self) -> W {
        self.func
    }

    pub fn new(func: W) -> (r: Self)
        ensures
            r.queued_msgs() == Seq::<N::V>::empty(),
            r.queued_alerts() == Seq::<AlertV>::empty(),
            r.wrap_fn() == func,
    {
        WrappedUpdateHandle {
            func,
            inner: BaseUpdateHandle::new(),
            _inner_msg: core::marker::PhantomData,
        }
    }

    /// Hands back the inner handle holding everything that was queued.
    pub fn into_inner(self) -> (r: BaseUpdateHandle<N>)
        ensures
            r.queued_msgs() == self.queued_msgs(),
            r.queued_alerts() == self.queued_alerts(),
    {
        self.inner
    }
}

impl<M: DeepView, N: DeepView, W: MsgWrap<M, N>> UpdateHandle<M> for WrappedUpdateHandle<M, N, W> {
    /// Queues the message, enveloped by the mapping.
    fn send_clients(&mut self, msg: M)
        ensures
            final(self).queued_msgs() == old(self).queued_msgs().push(
                old(self).wrap_fn().wrap_spec(msg.deep_view()),
            ),
            final(self).queued_alerts() == old(self).queued_alerts(),
            final(self).wrap_fn() == old(self).wrap_fn(),
    {
        let wrapped = self.func.wrap(msg);
        self.inner.send_clients(wrapped);
    }

    /// Queues the alert; alerts are not enveloped.
    fn post_alert(&mut self, alert: Alert)
        ensures
            final(self).queued_alerts() == old(self).queued_alerts().push(alert@),
            final(self).queued_msgs() == old(self).queued_msgs(),
            final(self).wrap_fn() == old(self).wrap_fn(),
    {
        self.inner.post_alert(alert);
    }
}

/// Envelopes buffer-level events for one buffer target, so a buffer can
/// emit events without knowing which network-level envelope they end up in.
pub struct BufEnvelope {
    pub target: BufTarget,
}

impl MsgWrap<CoreBufMsg, CoreNetMsg> for BufEnvelope {
    open spec fn wrap_spec(&self, m: CoreBufMsgV) -> CoreNetMsgV {
        CoreNetMsgV::BufMsg(self.target@, m)
    }

    fn wrap(&self, m: CoreBufMsg) -> (r: CoreNetMsg) {
        CoreNetMsg::BufMsg(self.target.clone(), m)
    }
}

/// Envelopes network-level events for one network id.
pub struct NetEnvelope {
    pub nid: NetId,
}

impl MsgWrap<CoreNetMsg, CoreMsg> for NetEnvelope {
    open spec fn wrap_spec(&self, m: CoreNetMsgV) -> CoreMsgV {
        CoreMsgV::NetMsg(self.nid@, m)
    }

    fn wrap(&self, m: CoreNetMsg) -> (r: CoreMsg) {
        CoreMsg::NetMsg(self.nid.clone(), m)
    }
}

} // verus!
