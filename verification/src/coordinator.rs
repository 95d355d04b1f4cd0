//! The operation coordinator: a checkpointed saga over one telemetry
//! submission.  The coordinator is a state machine; it owns the stage
//! sequencing, the checkpoint contents, and the error classification, and
//! it hands its caller the outside work to perform — the checkpoint
//! snapshots to store, and the next store lookup, HTTP call or row insert
//! to make — together with the event it expects back.  The caller performs
//! the I/O and feeds the answer to the matching `on_*` method.
//!
//! The checkpoint's stage flags only ever rise within a run
//! (`flags_monotonic` in every step's contract); the device-status check
//! always completes before any analysis call goes out, since the one
//! method that asks for an analysis call insists on a phase that only a
//! passed status check reaches; and a blocked or suspended device
//! short-circuits the run with the device's own status code as the
//! outcome.

use vstd::prelude::*;

use crate::analysis::{
    compact_json_text, coords_json, image_call_json, parse_image_response, resp_wf, spec_compact,
    spec_coords_json, spec_image_call_json, spec_image_response_json,
};
use crate::numtext::{i32_string, spec_int_string};
use crate::types::{coords_views, ImageCoordinates, OperationResult, OperationState, RespView, RoverData};

verus! {

/// Relies on chrono::Utc::now and chrono::DateTime::timestamp: the time
/// now, as seconds since the Unix epoch, in decimal text.  The value
/// depends on the clock, so nothing is promised of it; no contract in
/// this crate speaks of a checkpoint's `time` field.
#[verifier::external_body]
pub(crate) fn now_timestamp() -> (r: String) {
    chrono::Utc::now().timestamp().to_string()
}

/// Where the coordinator stands within a run.
#[derive(Clone, Copy, Debug, PartialEq, Eq, Structural)]
pub enum Phase {
    /// The intake checkpoint is written; the device status row is owed.
    AwaitStatus,
    /// The status gate passed and the payload is present; the configured
    /// analysis endpoint is owed.
    AwaitEndpoint,
    /// The analysis request is out; its reply is owed.
    AwaitAnalysis,
    /// The analysis reply is accepted; the result row's outcome is owed.
    AwaitPersist,
    /// The run ended: the last action was a `Finish`.
    Done,
}

/// What the run ends with: a domain outcome, or an error that the caller
/// surfaces as a transport-level failure.
#[derive(Debug, PartialEq)]
pub enum SubmitError {
    /// The relational store or the cache failed.
    Upstream(String),
    /// The analysis reply could not be decoded.
    Serialization(String),
}

#[derive(Debug, PartialEq)]
pub enum SubmitResponse {
    Outcome(OperationResult),
    Fault(SubmitError),
}

/// One HTTP reply, as plain values.
#[derive(Debug, PartialEq)]
pub struct HttpReply {
    pub status_code: u16,
    pub body: String,
}

/// The outside work the caller performs next.
#[derive(Debug, PartialEq)]
pub enum NextAction {
    /// Look the device's status row up in the relational store.
    FetchDeviceStatus { device_id: i32 },
    /// Read the configured analysis endpoint from the state store.
    FetchEndpointUrl { key: String },
    /// Post `body` to the analysis service at `url`.
    CallAnalysis { url: String, body: String },
    /// Insert the computed result into the relational store.
    PersistResult {
        device_id: i32,
        sample_id: i32,
        battery: String,
        temp: String,
        humidity: String,
        result_image: String,
        coordinates_json: String,
    },
    /// The run is over; answer the submitter.
    Finish { response: SubmitResponse },
}

/// One step's output: the checkpoint snapshots to store, in order, each
/// under the run's checkpoint key, and then the next action.
#[derive(Debug)]
pub struct StepResult {
    pub writes: Vec<OperationState>,
    pub next: NextAction,
}

/// A missing payload: absent, or present but empty.
pub open spec fn payload_missing(sample: RoverData) -> bool {
    match sample.image_data {
        None => true,
        Some(p) => p@.len() == 0,
    }
}

/// Stage flags only ever rise from `a` to `b`: once a stage is recorded
/// reached, no later checkpoint of the run unrecords it.
pub open spec fn flags_monotonic(a: OperationState, b: OperationState) -> bool {
    &&& (a.one ==> b.one)
    &&& (a.two ==> b.two)
    &&& (a.three ==> b.three)
    &&& (a.four ==> b.four)
    &&& (a.five ==> b.five)
    &&& (a.six ==> b.six)
}

fn clone_coords(v: &Vec<ImageCoordinates>) -> (r: Vec<ImageCoordinates>)
    ensures
        coords_views(r@) == coords_views(v@),
{
    let mut out: Vec<ImageCoordinates> = Vec::new();
    let mut i: usize = 0;
    while i < v.len()
        invariant
            i <= v@.len(),
            out@.len() == i,
            forall|j: int| 0 <= j < i ==> out@[j]@ == v@[j]@,
        decreases v@.len() - i,
    {
        out.push(v[i].clone());
        i += 1;
    }
    proof {
        assert(coords_views(out@) =~= coords_views(v@));
    }
    out
}

/// The saga itself.
pub struct OperationCoordinator {
    pub sample: RoverData,
    pub checkpoint: OperationState,
    pub phase: Phase,
    pub result_coords: Vec<ImageCoordinates>,
}

impl OperationCoordinator {
    /// The phase invariant: which stage flags a checkpoint shows, and that
    /// the error field is clear, while a run is under way.
    pub open spec fn wf(self) -> bool {
        &&& (self.phase == Phase::AwaitStatus ==> self.checkpoint.one && !self.checkpoint.two
            && !self.checkpoint.three && !self.checkpoint.four && !self.checkpoint.five
            && !self.checkpoint.six && self.checkpoint.error@ == Seq::<char>::empty())
        &&& ((self.phase == Phase::AwaitEndpoint || self.phase == Phase::AwaitAnalysis)
            ==> self.checkpoint.one && self.checkpoint.two && !self.checkpoint.three
            && !self.checkpoint.four && !self.checkpoint.five && !self.checkpoint.six
            && self.checkpoint.error@ == Seq::<char>::empty() && !payload_missing(self.sample))
        &&& (self.phase == Phase::AwaitPersist ==> self.checkpoint.one && self.checkpoint.two
            && self.checkpoint.three && self.checkpoint.four && !self.checkpoint.five
            && !self.checkpoint.six && self.checkpoint.error@ == Seq::<char>::empty())
    }

    /// Starts a run: builds the intake checkpoint and asks for the device
    /// status gate.
    pub fn start(sample: RoverData) -> (r: (OperationCoordinator, StepResult))
        ensures
            r.0.wf(),
            r.0.phase == Phase::AwaitStatus,
            r.0.sample == sample,
            r.0.checkpoint.one && !r.0.checkpoint.two && !r.0.checkpoint.three
                && !r.0.checkpoint.four && !r.0.checkpoint.five && !r.0.checkpoint.six,
            r.0.checkpoint.error@ == Seq::<char>::empty(),
            r.1.writes@.len() == 1 && r.1.writes@[0] == r.0.checkpoint,
            r.1.next == (NextAction::FetchDeviceStatus { device_id: sample.rover_id }),
    {
        let device_id = sample.rover_id;
        let checkpoint = OperationState {
            one: true,
            two: false,
            three: false,
            four: false,
            five: false,
            six: false,
            time: now_timestamp(),
            error: String::new(),
        };
        let coordinator = OperationCoordinator {
            sample,
            checkpoint,
            phase: Phase::AwaitStatus,
            result_coords: Vec::new(),
        };
        let mut writes: Vec<OperationState> = Vec::new();
        writes.push(coordinator.checkpoint.clone());
        (coordinator, StepResult { writes, next: NextAction::FetchDeviceStatus { device_id } })
    }

    /// The key under which this run's checkpoints are stored: the decimal
    /// text of the device id.
    pub fn checkpoint_key(&self) -> (r: String)
        ensures
            r@ == spec_int_string(self.sample.rover_id as int),
    {
        i32_string(self.sample.rover_id)
    }

    pub fn current_phase(&self) -> (p: Phase)
        ensures
            p == self.phase,
    {
        self.phase
    }

    /// A copy of the checkpoint as it stands.
    pub fn checkpoint_state(&self) -> (r: OperationState)
        ensures
            r == self.checkpoint,
    {
        self.checkpoint.clone()
    }

    /// The device status gate.  A store error aborts the run; a blocked
    /// (`"2"`) or suspended (`"3"`) device short-circuits it with that
    /// status code as the outcome and the analysis service is never asked;
    /// any other status clears the error and proceeds — to a soft payload
    /// failure if the payload is missing, else to the endpoint lookup.
    pub fn on_device_status(&mut self, status: Result<String, String>) -> (r: StepResult)
        requires
            old(self).wf(),
            old(self).phase == Phase::AwaitStatus,
        ensures
            final(self).wf(),
            final(self).sample == old(self).sample,
            flags_monotonic(old(self).checkpoint, final(self).checkpoint),
            status matches Err(e) ==> ({
                &&& final(self).phase == Phase::Done
                &&& final(self).checkpoint.one && !final(self).checkpoint.two && !final(self).checkpoint.three && !final(self).checkpoint.four && !final(self).checkpoint.five
                    && !final(self).checkpoint.six
                &&& final(self).checkpoint.error@ == e@
                &&& r.writes@.len() == 1 && r.writes@[0] == final(self).checkpoint
                &&& (r.next matches NextAction::Finish {
                    response: SubmitResponse::Fault(SubmitError::Upstream(m)),
                } && m@ == "Database query failed: "@ + e@)
            }),
            status matches Ok(code) ==> ({
                &&& code@ == "2"@ ==> ({
                    &&& final(self).phase == Phase::Done
                    &&& final(self).checkpoint.one && !final(self).checkpoint.two && !final(self).checkpoint.three && !final(self).checkpoint.four && !final(self).checkpoint.five && !final(self).checkpoint.six
                    &&& final(self).checkpoint.error@ == "status is 2"@
                    &&& r.writes@.len() == 1 && r.writes@[0] == final(self).checkpoint
                    &&& (r.next matches NextAction::Finish {
                        response: SubmitResponse::Outcome(o),
                    } && o.rover_state == 2 && o.random_id@ == spec_int_string(
                        old(self).sample.random_id as int,
                    ) && o.base64_image@ == Seq::<char>::empty() && o.image_result@.len() == 0)
                })
                &&& code@ == "3"@ ==> ({
                    &&& final(self).phase == Phase::Done
                    &&& final(self).checkpoint.one && !final(self).checkpoint.two && !final(self).checkpoint.three && !final(self).checkpoint.four && !final(self).checkpoint.five && !final(self).checkpoint.six
                    &&& final(self).checkpoint.error@ == "status is 3"@
                    &&& r.writes@.len() == 1 && r.writes@[0] == final(self).checkpoint
                    &&& (r.next matches NextAction::Finish {
                        response: SubmitResponse::Outcome(o),
                    } && o.rover_state == 3 && o.random_id@ == spec_int_string(
                        old(self).sample.random_id as int,
                    ) && o.base64_image@ == Seq::<char>::empty() && o.image_result@.len() == 0)
                })
                &&& (code@ != "2"@ && code@ != "3"@ && payload_missing(old(self).sample)) ==> ({
                    &&& final(self).phase == Phase::Done
                    &&& final(self).checkpoint.one && final(self).checkpoint.two && !final(self).checkpoint.three && !final(self).checkpoint.four && !final(self).checkpoint.five && !final(self).checkpoint.six
                    &&& final(self).checkpoint.error@ == "Image data is null"@
                    &&& r.writes@.len() == 1 && r.writes@[0] == final(self).checkpoint
                    &&& (r.next matches NextAction::Finish {
                        response: SubmitResponse::Outcome(o),
                    } && o.rover_state == 4 && o.random_id@ == spec_int_string(
                        old(self).sample.random_id as int,
                    ) && o.base64_image@ == Seq::<char>::empty() && o.image_result@.len() == 0)
                })
                &&& (code@ != "2"@ && code@ != "3"@ && !payload_missing(old(self).sample)) ==> ({
                    &&& final(self).phase == Phase::AwaitEndpoint
                    &&& final(self).checkpoint.one && final(self).checkpoint.two && !final(self).checkpoint.three && !final(self).checkpoint.four && !final(self).checkpoint.five && !final(self).checkpoint.six
                    &&& final(self).checkpoint.error@ == Seq::<char>::empty()
                    &&& r.writes@.len() == 1 && r.writes@[0] == final(self).checkpoint
                    &&& (r.next matches NextAction::FetchEndpointUrl { key } && key@
                        == "imageserverurl"@)
                })
            }),
    {
        match status {
            Err(e) => {
                let mut m = String::from_str("Database query failed: ");
                m.append(e.as_str());
                self.checkpoint.error = e;
                self.checkpoint.time = now_timestamp();
                self.phase = Phase::Done;
                let mut writes: Vec<OperationState> = Vec::new();
                writes.push(self.checkpoint.clone());
                StepResult {
                    writes,
                    next: NextAction::Finish {
                        response: SubmitResponse::Fault(SubmitError::Upstream(m)),
                    },
                }
            },
            Ok(code) => {
                proof {
                    reveal_strlit("2");
                    reveal_strlit("3");
                }
                if crate::text::str_eq(code.as_str(), "2") {
                    proof {
                        assert("2"@.len() == 1);
                        assert("2"@[0] == '2');
                        assert("3"@.len() == 1);
                        assert("3"@[0] == '3');
                        assert(code@ != "3"@);
                    }
                    self.checkpoint.error = String::from_str("status is 2");
                    self.checkpoint.time = now_timestamp();
                    self.phase = Phase::Done;
                    let mut writes: Vec<OperationState> = Vec::new();
                    writes.push(self.checkpoint.clone());
                    let outcome = OperationResult {
                        rover_state: 2,
                        random_id: i32_string(self.sample.random_id),
                        base64_image: String::new(),
                        image_result: Vec::new(),
                    };
                    StepResult {
                        writes,
                        next: NextAction::Finish {
                            response: SubmitResponse::Outcome(outcome),
                        },
                    }
                } else if crate::text::str_eq(code.as_str(), "3") {
                    self.checkpoint.error = String::from_str("status is 3");
                    self.checkpoint.time = now_timestamp();
                    self.phase = Phase::Done;
                    let mut writes: Vec<OperationState> = Vec::new();
                    writes.push(self.checkpoint.clone());
                    let outcome = OperationResult {
                        rover_state: 3,
                        random_id: i32_string(self.sample.random_id),
                        base64_image: String::new(),
                        image_result: Vec::new(),
                    };
                    StepResult {
                        writes,
                        next: NextAction::Finish {
                            response: SubmitResponse::Outcome(outcome),
                        },
                    }
                } else {
                    let missing = match &self.sample.image_data {
                        None => true,
                        Some(p) => p.as_str().is_empty(),
                    };
                    if missing {
                        self.checkpoint.two = true;
                        self.checkpoint.error = String::from_str("Image data is null");
                        self.checkpoint.time = now_timestamp();
                        self.phase = Phase::Done;
                        let mut writes: Vec<OperationState> = Vec::new();
                        writes.push(self.checkpoint.clone());
                        let outcome = OperationResult {
                            rover_state: 4,
                            random_id: i32_string(self.sample.random_id),
                            base64_image: String::new(),
                            image_result: Vec::new(),
                        };
                        StepResult {
                            writes,
                            next: NextAction::Finish {
                                response: SubmitResponse::Outcome(outcome),
                            },
                        }
                    } else {
                        self.checkpoint.two = true;
                        self.checkpoint.error = String::new();
                        self.checkpoint.time = now_timestamp();
                        self.phase = Phase::AwaitEndpoint;
                        let mut writes: Vec<OperationState> = Vec::new();
                        writes.push(self.checkpoint.clone());
                        StepResult {
                            writes,
                            next: NextAction::FetchEndpointUrl {
                                key: String::from_str("imageserverurl"),
                            },
                        }
                    }
                }
            },
        }
    }

    /// The endpoint lookup.  A store error aborts the run; otherwise the
    /// analysis request goes out to the configured URL, carrying the
    /// payload in the canonical request text.
    pub fn on_endpoint(&mut self, url: Result<String, String>) -> (r: StepResult)
        requires
            old(self).wf(),
            old(self).phase == Phase::AwaitEndpoint,
        ensures
            final(self).wf(),
            final(self).sample == old(self).sample,
            flags_monotonic(old(self).checkpoint, final(self).checkpoint),
            url matches Err(e) ==> ({
                &&& final(self).phase == Phase::Done
                &&& final(self).checkpoint.one && final(self).checkpoint.two && !final(self).checkpoint.three && !final(self).checkpoint.four && !final(self).checkpoint.five
                    && !final(self).checkpoint.six
                &&& final(self).checkpoint.error@ == e@
                &&& r.writes@.len() == 1 && r.writes@[0] == final(self).checkpoint
                &&& (r.next matches NextAction::Finish {
                    response: SubmitResponse::Fault(SubmitError::Upstream(m)),
                } && m@ == e@)
            }),
            url matches Ok(u) ==> ({
                &&& final(self).phase == Phase::AwaitAnalysis
                &&& final(self).checkpoint == old(self).checkpoint
                &&& r.writes@.len() == 0
                &&& (r.next matches NextAction::CallAnalysis { url: target, body } && target@ == u@
                    && (old(self).sample.image_data matches Some(p) ==> body@
                    == spec_image_call_json(p@)))
            }),
    {
        match url {
            Err(e) => {
                let m = e.clone();
                self.checkpoint.error = e;
                self.checkpoint.time = now_timestamp();
                self.phase = Phase::Done;
                let mut writes: Vec<OperationState> = Vec::new();
                writes.push(self.checkpoint.clone());
                StepResult {
                    writes,
                    next: NextAction::Finish {
                        response: SubmitResponse::Fault(SubmitError::Upstream(m)),
                    },
                }
            },
            Ok(u) => {
                let body = match &self.sample.image_data {
                    Some(p) => image_call_json(p.as_str()),
                    None => {
                        proof {
                            assert(false);
                        }
                        String::new()
                    },
                };
                self.phase = Phase::AwaitAnalysis;
                StepResult {
                    writes: Vec::new(),
                    next: NextAction::CallAnalysis { url: u, body },
                }
            },
        }
    }

    /// The analysis reply.  A transport error aborts the run; a non-2xx
    /// reply is a soft failure folded into the outcome, with the reply
    /// body recorded as the checkpoint's error and a fixed, non-empty
    /// placeholder as the result image; a 2xx reply whose body — taken up
    /// to inter-token whitespace — is not a canonical reply text aborts the
    /// run as a decoding failure; a
    /// well-formed 2xx reply advances two stages and asks for the result
    /// row to be persisted, carrying exactly the coordinates the reply
    /// listed, in their order.
    pub fn on_analysis(&mut self, reply: Result<HttpReply, String>) -> (r: StepResult)
        requires
            old(self).wf(),
            old(self).phase == Phase::AwaitAnalysis,
        ensures
            final(self).wf(),
            final(self).sample == old(self).sample,
            flags_monotonic(old(self).checkpoint, final(self).checkpoint),
            reply matches Err(e) ==> ({
                &&& final(self).phase == Phase::Done
                &&& final(self).checkpoint.one && final(self).checkpoint.two && !final(self).checkpoint.three && !final(self).checkpoint.four && !final(self).checkpoint.five && !final(self).checkpoint.six
                &&& final(self).checkpoint.error@ == "response from image processing API error"@
                &&& r.writes@.len() == 1 && r.writes@[0] == final(self).checkpoint
                &&& (r.next matches NextAction::Finish {
                    response: SubmitResponse::Fault(SubmitError::Upstream(m)),
                } && m@ == "Request error: "@ + e@)
            }),
            reply matches Ok(rep) ==> ({
                &&& !(200 <= rep.status_code < 300) ==> ({
                    &&& final(self).phase == Phase::Done
                    &&& final(self).checkpoint.one && final(self).checkpoint.two && !final(self).checkpoint.three && !final(self).checkpoint.four && !final(self).checkpoint.five && !final(self).checkpoint.six
                    &&& final(self).checkpoint.error@ == rep.body@
                    &&& r.writes@.len() == 1 && r.writes@[0] == final(self).checkpoint
                    &&& (r.next matches NextAction::Finish {
                        response: SubmitResponse::Outcome(o),
                    } && o.rover_state == 4 && o.random_id@ == spec_int_string(
                        old(self).sample.random_id as int,
                    ) && o.base64_image@ == "Image Processing is not working"@
                        && o.base64_image@.len() > 0 && o.image_result@.len() == 0)
                })
                &&& (200 <= rep.status_code < 300 && (forall|v: crate::types::RespView|
                    resp_wf(v) ==> spec_compact(rep.body@) != spec_image_response_json(v))) ==> ({
                    &&& final(self).phase == Phase::Done
                    &&& final(self).checkpoint.one && final(self).checkpoint.two && !final(self).checkpoint.three && !final(self).checkpoint.four && !final(self).checkpoint.five && !final(self).checkpoint.six
                    &&& final(self).checkpoint.error@ == "JSON parse error"@
                    &&& r.writes@.len() == 1 && r.writes@[0] == final(self).checkpoint
                    &&& (r.next matches NextAction::Finish {
                        response: SubmitResponse::Fault(SubmitError::Serialization(m)),
                    } && m@ == "JSON parse error"@)
                })
                &&& (200 <= rep.status_code < 300 && (exists|v: crate::types::RespView|
                    resp_wf(v) && spec_compact(rep.body@) == spec_image_response_json(v))) ==> ({
                    &&& final(self).phase == Phase::AwaitPersist
                    &&& final(self).checkpoint.one && final(self).checkpoint.two && final(self).checkpoint.three && final(self).checkpoint.four && !final(self).checkpoint.five && !final(self).checkpoint.six
                    &&& final(self).checkpoint.error@ == Seq::<char>::empty()
                    &&& r.writes@.len() == 2
                    &&& r.writes@[0].one && r.writes@[0].two && r.writes@[0].three && !r.writes@[0].four && !r.writes@[0].five && !r.writes@[0].six && r.writes@[0].error@ == Seq::<char>::empty()
                    &&& r.writes@[1] == final(self).checkpoint
                    &&& forall|v: crate::types::RespView|
                        (resp_wf(v) && spec_compact(rep.body@) == spec_image_response_json(v)) ==> ({
                            &&& (r.next matches NextAction::PersistResult {
                                device_id,
                                sample_id,
                                battery,
                                temp,
                                humidity,
                                result_image,
                                coordinates_json,
                            } && device_id == old(self).sample.rover_id && sample_id == old(
                                self,
                            ).sample.random_id && battery@ == old(self).sample.battery_status@
                                && temp@ == old(self).sample.temp@ && humidity@ == old(
                                self,
                            ).sample.humidity@ && result_image@ == v.image && coordinates_json@
                                == spec_coords_json(v.coords))
                            &&& coords_views(final(self).result_coords@) == v.coords
                        })
                })
            }),
    {
        match reply {
            Err(e) => {
                let mut m = String::from_str("Request error: ");
                m.append(e.as_str());
                self.checkpoint.error = String::from_str(
                    "response from image processing API error",
                );
                self.checkpoint.time = now_timestamp();
                self.phase = Phase::Done;
                let mut writes: Vec<OperationState> = Vec::new();
                writes.push(self.checkpoint.clone());
                StepResult {
                    writes,
                    next: NextAction::Finish {
                        response: SubmitResponse::Fault(SubmitError::Upstream(m)),
                    },
                }
            },
            Ok(rep) => {
                if !(200 <= rep.status_code && rep.status_code < 300) {
                    self.checkpoint.error = rep.body;
                    self.checkpoint.time = now_timestamp();
                    self.phase = Phase::Done;
                    let mut writes: Vec<OperationState> = Vec::new();
                    writes.push(self.checkpoint.clone());
                    let outcome = OperationResult {
                        rover_state: 4,
                        random_id: i32_string(self.sample.random_id),
                        base64_image: String::from_str("Image Processing is not working"),
                        image_result: Vec::new(),
                    };
                    proof {
                        reveal_strlit("Image Processing is not working");
                    }
                    StepResult {
                        writes,
                        next: NextAction::Finish {
                            response: SubmitResponse::Outcome(outcome),
                        },
                    }
                } else {
                    let compact_body = compact_json_text(rep.body.as_str());
                    match parse_image_response(compact_body.as_str()) {
                        None => {
                            self.checkpoint.error = String::from_str("JSON parse error");
                            self.checkpoint.time = now_timestamp();
                            self.phase = Phase::Done;
                            let mut writes: Vec<OperationState> = Vec::new();
                            writes.push(self.checkpoint.clone());
                            StepResult {
                                writes,
                                next: NextAction::Finish {
                                    response: SubmitResponse::Fault(
                                        SubmitError::Serialization(
                                            String::from_str("JSON parse error"),
                                        ),
                                    ),
                                },
                            }
                        },
                        Some(resp) => {
                            let mut writes: Vec<OperationState> = Vec::new();
                            self.checkpoint.three = true;
                            self.checkpoint.time = now_timestamp();
                            writes.push(self.checkpoint.clone());
                            self.checkpoint.four = true;
                            self.checkpoint.time = now_timestamp();
                            writes.push(self.checkpoint.clone());
                            self.phase = Phase::AwaitPersist;
                            let coordinates_json = coords_json(&resp.image_result);
                            let next = NextAction::PersistResult {
                                device_id: self.sample.rover_id,
                                sample_id: self.sample.random_id,
                                battery: self.sample.battery_status.clone(),
                                temp: self.sample.temp.clone(),
                                humidity: self.sample.humidity.clone(),
                                result_image: resp.image,
                                coordinates_json,
                            };
                            self.result_coords = resp.image_result;
                            proof {
                                assert forall|v: crate::types::RespView|
                                    (resp_wf(v) && spec_compact(rep.body@)
                                        == spec_image_response_json(v)) implies v == (RespView {
                                    status: resp.status@,
                                    image: resp.image@,
                                    coords: coords_views(resp.image_result@),
                                }) by {
                                    crate::analysis::lemma_image_response_json_injective(
                                        v,
                                        RespView {
                                            status: resp.status@,
                                            image: resp.image@,
                                            coords: coords_views(resp.image_result@),
                                        },
                                    );
                                }
                            }
                            StepResult { writes, next }
                        },
                    }
                }
            },
        }
    }

    /// The result-row outcome.  A store error aborts the run; otherwise
    /// the run completes: a result code other than the success sentinel
    /// `"1"` (or a missing one) is recorded in the checkpoint's error but
    /// does not abort — the outcome still reports success, with the result
    /// image redacted and the analysis coordinates unchanged.
    pub fn on_persist(&mut self, row: Result<Option<String>, String>) -> (r: StepResult)
        requires
            old(self).wf(),
            old(self).phase == Phase::AwaitPersist,
        ensures
            final(self).wf(),
            final(self).sample == old(self).sample,
            flags_monotonic(old(self).checkpoint, final(self).checkpoint),
            row matches Err(e) ==> ({
                &&& final(self).phase == Phase::Done
                &&& final(self).checkpoint.one && final(self).checkpoint.two && final(self).checkpoint.three && final(self).checkpoint.four && !final(self).checkpoint.five && !final(self).checkpoint.six
                &&& final(self).checkpoint.error@ == e@
                &&& r.writes@.len() == 1 && r.writes@[0] == final(self).checkpoint
                &&& (r.next matches NextAction::Finish {
                    response: SubmitResponse::Fault(SubmitError::Upstream(m)),
                } && m@ == "Database insertion failed: "@ + e@)
            }),
            row matches Ok(code) ==> ({
                &&& final(self).phase == Phase::Done
                &&& final(self).checkpoint.one && final(self).checkpoint.two && final(self).checkpoint.three && final(self).checkpoint.four && final(self).checkpoint.five && final(self).checkpoint.six
                &&& (code matches Some(c) ==> ({
                    &&& c@ == "1"@ ==> final(self).checkpoint.error@ == Seq::<char>::empty()
                    &&& c@ != "1"@ ==> final(self).checkpoint.error@ == "Error on storing DB"@
                }))
                &&& (code is None ==> final(self).checkpoint.error@
                    == "Failed to retrieve result value"@)
                &&& r.writes@.len() == 2
                &&& r.writes@[0].one && r.writes@[0].two && r.writes@[0].three && r.writes@[0].four && r.writes@[0].five && !r.writes@[0].six && r.writes@[0].error@ == Seq::<char>::empty()
                &&& r.writes@[1] == final(self).checkpoint
                &&& (r.next matches NextAction::Finish {
                    response: SubmitResponse::Outcome(o),
                } && o.rover_state == 1 && o.random_id@ == spec_int_string(
                    old(self).sample.random_id as int,
                ) && o.base64_image@ == Seq::<char>::empty() && coords_views(o.image_result@)
                    == coords_views(old(self).result_coords@))
            }),
    {
        match row {
            Err(e) => {
                let mut m = String::from_str("Database insertion failed: ");
                m.append(e.as_str());
                self.checkpoint.error = e;
                self.checkpoint.time = now_timestamp();
                self.phase = Phase::Done;
                let mut writes: Vec<OperationState> = Vec::new();
                writes.push(self.checkpoint.clone());
                StepResult {
                    writes,
                    next: NextAction::Finish {
                        response: SubmitResponse::Fault(SubmitError::Upstream(m)),
                    },
                }
            },
            Ok(code) => {
                let mut writes: Vec<OperationState> = Vec::new();
                self.checkpoint.five = true;
                self.checkpoint.time = now_timestamp();
                writes.push(self.checkpoint.clone());
                match &code {
                    Some(c) => {
                        if !crate::text::str_eq(c.as_str(), "1") {
                            self.checkpoint.error = String::from_str("Error on storing DB");
                        }
                    },
                    None => {
                        self.checkpoint.error = String::from_str(
                            "Failed to retrieve result value",
                        );
                    },
                }
                self.checkpoint.six = true;
                self.checkpoint.time = now_timestamp();
                writes.push(self.checkpoint.clone());
                self.phase = Phase::Done;
                let outcome = OperationResult {
                    rover_state: 1,
                    random_id: i32_string(self.sample.random_id),
                    base64_image: String::new(),
                    image_result: clone_coords(&self.result_coords),
                };
                StepResult {
                    writes,
                    next: NextAction::Finish {
                        response: SubmitResponse::Outcome(outcome),
                    },
                }
            },
        }
    }
}

} // verus!
