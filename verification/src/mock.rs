//! A scripted channel: it answers each attempt with the next outcome of its
//! script — or a failure once the script runs dry — and remembers every call,
//! so a test can count attempts and inspect what was sent.

use vstd::prelude::*;

use crate::cookie::{Cookie, entries_view, jar_view, clone_jar, clone_pairs};
use crate::transport::{HttpChannel, Method, Outcome, ReplyData, CallRecord};

verus! {

fn clone_opt_string(o: &Option<String>) -> (r: Option<String>)
    ensures
        r == *o,
{
    match o {
        Some(s) => Some(s.clone()),
        None => None,
    }
}

fn clone_reply(d: &ReplyData) -> (r: ReplyData)
    ensures
        r@ == d@,
{
    let r = ReplyData {
        msg: clone_opt_string(&d.msg),
        gsid: clone_opt_string(&d.gsid),
        uid: clone_opt_string(&d.uid),
        screen_name: clone_opt_string(&d.screen_name),
        cookie: match &d.cookie {
            Some(v) => Some(clone_pairs(v)),
            None => None,
        },
        errmsg: clone_opt_string(&d.errmsg),
        errno: d.errno,
        errtype: clone_opt_string(&d.errtype),
        isblock: d.isblock,
    };
    proof {
        assert(r@ =~~= d@);
    }
    r
}

fn clone_outcome(o: &Outcome) -> (r: Outcome)
    ensures
        r@ == o@,
{
    match o {
        Outcome::Reply { status, data } => {
            let r = Outcome::Reply { status: *status, data: clone_reply(data) };
            proof {
            }
            r
        },
        Outcome::TimedOut => Outcome::TimedOut,
        Outcome::Failed { reason } => Outcome::Failed { reason: reason.clone() },
    }
}

/// One call as the mock saw it.
pub struct RecordedCall {
    pub method: Method,
    pub url: String,
    pub params: Vec<(String, String)>,
    pub web: bool,
    pub cookies: Vec<Cookie>,
    pub outcome: Outcome,
}

pub open spec fn record_view(rc: RecordedCall) -> CallRecord {
    CallRecord {
        method: rc.method,
        url: rc.url@,
        params: entries_view(rc.params@),
        web: rc.web,
        cookies: jar_view(rc.cookies@),
        outcome: rc.outcome@,
    }
}

/// The scripted channel.
pub struct MockChannel {
    pub script: Vec<Outcome>,
    pub calls: Vec<RecordedCall>,
}

impl MockChannel {
    /// A channel that will answer with the given outcomes, in order.
    pub fn new(script: Vec<Outcome>) -> (r: MockChannel)
        ensures
            r.log() == Seq::<CallRecord>::empty(),
    {
        let r = MockChannel { script, calls: Vec::new() };
        proof {
            assert(r.log() =~= Seq::<CallRecord>::empty());
        }
        r
    }

    /// How many attempts were made.
    pub fn call_count(&self) -> (r: usize)
        ensures
            r == self.log().len(),
    {
        self.calls.len()
    }
}

impl HttpChannel for MockChannel {
    open spec fn log(&self) -> Seq<CallRecord> {
        self.calls@.map_values(|rc: RecordedCall| record_view(rc))
    }

    fn attempt(
        &mut self,
        method: Method,
        url: &String,
        params: &Vec<(String, String)>,
        web: bool,
        cookies: &Vec<Cookie>,
    ) -> (r: Outcome) {
        let outcome = if self.script.len() > 0 {
            self.script.remove(0)
        } else {
            Outcome::Failed { reason: "script exhausted".to_owned() }
        };
        let rec = RecordedCall {
            method,
            url: url.clone(),
            params: clone_pairs(params),
            web,
            cookies: clone_jar(cookies),
            outcome: clone_outcome(&outcome),
        };
        let ghost prev = self.calls@;
        let ghost rec_v = record_view(rec);
        proof {
            assert(rec_v =~= CallRecord {
                method,
                url: url@,
                params: entries_view(params@),
                web,
                cookies: jar_view(cookies@),
                outcome: outcome@,
            });
        }
        self.calls.push(rec);
        proof {
            assert forall|j: int| 0 <= j < self.calls@.len() implies #[trigger] self.log()[j]
                == prev.map_values(|rc: RecordedCall| record_view(rc)).push(rec_v)[j] by {
                if j < prev.len() {
                    assert(self.calls@[j] == prev[j]);
                }
            }
            assert(self.log() =~= prev.map_values(|rc: RecordedCall| record_view(rc)).push(rec_v));
        }
        outcome
    }
}

} // verus!
