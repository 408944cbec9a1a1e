//! The broker gateway pool: one connection record per configured broker
//! endpoint, the per-host client-id rule, and the verified per-order
//! decisions behind order placement.  The TCP connection itself and every
//! broker call are driven outside; this module owns the bookkeeping and
//! the decisions.

use vstd::prelude::*;

use crate::error::RqError;
use crate::events::RqOrder;
use crate::pricing::{plan_order, plan_order_spec, OrderPlan};
use crate::strutil::{render_spec, render_u64, str_eq};

verus! {

/// One broker connection: its endpoint, the client id used to connect, and
/// whether a connected handle currently exists.  The handle itself lives
/// with the I/O layer; `connected` is set exactly while it does, so no
/// half-initialized state is observable.
pub struct Gateway {
    pub connection_url: String,
    pub client_id: i32,
    pub connected: bool,
}

impl Gateway {
    /// A gateway record for an endpoint, not yet connected.
    pub fn new(connection_url: &str, client_id: i32) -> (r: Gateway)
        ensures
            r.connection_url@ == connection_url@,
            r.client_id == client_id,
            !r.connected,
    {
        Gateway { connection_url: connection_url.to_owned(), client_id, connected: false }
    }

    /// Record that a connect attempt succeeded.
    pub fn set_connected(&mut self)
        ensures
            final(self).connected,
            final(self).connection_url == old(self).connection_url,
            final(self).client_id == old(self).client_id,
    {
        self.connected = true;
    }

    /// Record that the connection was dropped (or a connect attempt failed).
    pub fn set_disconnected(&mut self)
        ensures
            !final(self).connected,
            final(self).connection_url == old(self).connection_url,
            final(self).client_id == old(self).client_id,
    {
        self.connected = false;
    }
}

/// A broker endpoint as `ip:port`.
pub fn build_connection_url(ip: &str, port: u16) -> (r: String)
    ensures
        r@ == ip@ + ":"@ + render_spec(port as int),
{
    proof {
        reveal_strlit(":");
    }
    let url = ip.to_owned().concat(":");
    url.concat(render_u64(port as u64).as_str())
}

/// The pool of broker connections.  Each entry is meant to be driven (and
/// locked) independently, so one slow call never blocks the others.
pub struct BrokersWatcher {
    pub gateways: Vec<Gateway>,
}

impl BrokersWatcher {
    /// An empty pool.
    pub fn new() -> (r: BrokersWatcher)
        ensures
            r.gateways@ == Seq::<Gateway>::empty(),
    {
        BrokersWatcher { gateways: Vec::new() }
    }

    /// Add a connection record to the pool.
    pub fn add_gateway(&mut self, gateway: Gateway)
        ensures
            final(self).gateways@ == old(self).gateways@.push(gateway),
    {
        self.gateways.push(gateway);
    }

    /// The broker client id for this host.  On Windows the user domain
    /// picks the id (an unrecognized domain is a configuration error);
    /// elsewhere the id is fixed.
    pub fn gateway_client_id(is_windows: bool, userdomain: &str) -> (r: Result<i32, RqError>)
        ensures
            !is_windows ==> r == Ok::<i32, RqError>(200),
            is_windows ==> {
                if userdomain@ == "GYANTAL-PC"@ {
                    r == Ok::<i32, RqError>(210)
                } else if userdomain@ == "GYANTAL-LAPTOP"@ {
                    r == Ok::<i32, RqError>(211)
                } else if userdomain@ == "BALAZS-PC"@ {
                    r == Ok::<i32, RqError>(212)
                } else if userdomain@ == "BALAZS-LAPTOP"@ {
                    r == Ok::<i32, RqError>(213)
                } else if userdomain@ == "DAYA-DESKTOP"@ {
                    r == Ok::<i32, RqError>(214)
                } else if userdomain@ == "DAYA-LAPTOP"@ {
                    r == Ok::<i32, RqError>(215)
                } else if userdomain@ == "DRCHARMAT-LAPTOP"@ {
                    r == Ok::<i32, RqError>(216)
                } else {
                    r is Err
                }
            },
    {
        if !is_windows {
            return Ok(200);
        }
        if str_eq(userdomain, "GYANTAL-PC") {
            Ok(210)
        } else if str_eq(userdomain, "GYANTAL-LAPTOP") {
            Ok(211)
        } else if str_eq(userdomain, "BALAZS-PC") {
            Ok(212)
        } else if str_eq(userdomain, "BALAZS-LAPTOP") {
            Ok(213)
        } else if str_eq(userdomain, "DAYA-DESKTOP") {
            Ok(214)
        } else if str_eq(userdomain, "DAYA-LAPTOP") {
            Ok(215)
        } else if str_eq(userdomain, "DRCHARMAT-LAPTOP") {
            Ok(216)
        } else {
            Err(RqError::Config(String::from_str("unrecognized Windows user domain")))
        }
    }
}

/// The order coordinator: decides, per order, whether to execute and with
/// what share count and limit price.  Handing the plans to the broker and
/// awaiting the results is the I/O layer's job.
pub struct RoboTrader {}

impl RoboTrader {
    /// Plan a batch of orders against the live ticks fetched for them
    /// (position `i` of `live_ticks_cents` answers order `i`; `None` when
    /// no tick arrived).  Each plan follows the per-order rule exactly; in
    /// simulation mode no plan ever submits.
    pub fn plan_orders(
        orders: &Vec<RqOrder>,
        live_ticks_cents: &Vec<Option<u64>>,
        is_simulation: bool,
    ) -> (r: Vec<OrderPlan>)
        requires
            orders@.len() == live_ticks_cents@.len(),
        ensures
            r@.len() == orders@.len(),
            forall|i: int|
                0 <= i < orders@.len() ==> r@[i] == plan_order_spec(
                    orders@[i],
                    live_ticks_cents@[i],
                    is_simulation,
                ),
            is_simulation ==> forall|i: int| 0 <= i < r@.len() ==> !((#[trigger] r@[i]) is Execute),
    {
        let mut out: Vec<OrderPlan> = Vec::new();
        let mut i: usize = 0;
        while i < orders.len()
            invariant
                orders@.len() == live_ticks_cents@.len(),
                i <= orders@.len(),
                out@.len() == i,
                forall|k: int|
                    0 <= k < i ==> out@[k] == plan_order_spec(
                        orders@[k],
                        live_ticks_cents@[k],
                        is_simulation,
                    ),
                is_simulation ==> forall|k: int|
                    0 <= k < out@.len() ==> !((#[trigger] out@[k]) is Execute),
            decreases orders@.len() - i,
        {
            let p = plan_order(&orders[i], live_ticks_cents[i], is_simulation);
            out.push(p);
            i = i + 1;
        }
        out
    }
}

} // verus!
