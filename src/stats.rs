//! The statistics record that every request of a run reports into.
use vstd::prelude::*;
use crate::latency::copy_values;

verus! {

/// What one request came back with.
pub enum RequestOutcome {
    /// A response arrived: its status, the size of its body in bytes, its
    /// `server` header if it had one, and the time it took in milliseconds.
    Success { status: u16, body_bytes: u64, server: Option<String>, latency_ms: u64 },
    /// No response: the transport failed, by a timeout or otherwise.
    Failure { timed_out: bool },
}

/// Running totals of a load test.
pub struct Report {
    /// Software named by the first response that carried a `server` header.
    pub server_software: String,
    pub host: String,
    pub port: u16,
    /// Requests that got a response, whatever its status.
    pub completed_requests: usize,
    /// Requests that got no response.
    pub failed_requests: usize,
    /// Failed requests that ran out of time.
    pub timeouts: usize,
    /// Bytes of response bodies read, saturating at `u64::MAX`.
    pub bytes_read: u64,
    /// Responses whose status is not in the 2xx class.
    pub non_2xx_responses: usize,
    /// Requests in flight at once.
    pub concurrency: usize,
    /// Time since the run started, in microseconds.
    pub elapsed_us: u64,
    /// Latency of each completed request in milliseconds, in completion order.
    pub latencies: Vec<u64>,
}

pub open spec fn is_2xx(status: u16) -> bool {
    status / 100 == 2
}

impl Report {
    /// One latency for each completed request, no more timeouts than failures
    /// and no more non-2xx responses than completed requests.
    pub open spec fn wf(&self) -> bool {
        &&& self.latencies@.len() == self.completed_requests
        &&& self.timeouts <= self.failed_requests
        &&& self.non_2xx_responses <= self.completed_requests
        &&& self.completed_requests + self.failed_requests <= usize::MAX
    }

    /// Requests whose outcome has been recorded.
    pub open spec fn recorded(&self) -> nat {
        (self.completed_requests + self.failed_requests) as nat
    }

    /// `after` is `self` with one more response recorded.
    pub open spec fn success_step(
        &self,
        after: &Report,
        latency_ms: u64,
        body_bytes: u64,
        status: u16,
        server: Option<String>,
    ) -> bool {
        &&& after.latencies@ == self.latencies@.push(latency_ms)
        &&& after.completed_requests == self.completed_requests + 1
        &&& after.failed_requests == self.failed_requests
        &&& after.timeouts == self.timeouts
        &&& after.bytes_read == if self.bytes_read + body_bytes <= u64::MAX {
            self.bytes_read + body_bytes
        } else {
            u64::MAX as int
        }
        &&& after.non_2xx_responses == self.non_2xx_responses + if is_2xx(status) {
            0int
        } else {
            1int
        }
        &&& after.server_software@ == if self.server_software@.len() == 0 && server.is_some() {
            server.unwrap()@
        } else {
            self.server_software@
        }
        &&& after.host == self.host
        &&& after.port == self.port
        &&& after.concurrency == self.concurrency
        &&& after.elapsed_us == self.elapsed_us
    }

    /// `after` is `self` with one more request without response recorded.
    pub open spec fn failure_step(&self, after: &Report, timed_out: bool) -> bool {
        &&& after.failed_requests == self.failed_requests + 1
        &&& after.timeouts == self.timeouts + if timed_out {
            1int
        } else {
            0int
        }
        &&& after.completed_requests == self.completed_requests
        &&& after.latencies == self.latencies
        &&& after.bytes_read == self.bytes_read
        &&& after.non_2xx_responses == self.non_2xx_responses
        &&& after.server_software == self.server_software
        &&& after.host == self.host
        &&& after.port == self.port
        &&& after.concurrency == self.concurrency
        &&& after.elapsed_us == self.elapsed_us
    }

    /// An empty record for a run with the given concurrency.
    pub fn new(concurrency: usize) -> (r: Report)
        ensures
            r.wf(),
            r.completed_requests == 0,
            r.failed_requests == 0,
            r.timeouts == 0,
            r.bytes_read == 0,
            r.non_2xx_responses == 0,
            r.concurrency == concurrency,
            r.elapsed_us == 0,
            r.latencies@ == Seq::<u64>::empty(),
            r.server_software@ == Seq::<char>::empty(),
            r.host@ == Seq::<char>::empty(),
            r.port == 0,
    {
        Report {
            server_software: String::new(),
            host: String::new(),
            port: 0,
            completed_requests: 0,
            failed_requests: 0,
            timeouts: 0,
            bytes_read: 0,
            non_2xx_responses: 0,
            concurrency,
            elapsed_us: 0,
            latencies: Vec::new(),
        }
    }

    /// Records a request that got a response.
    pub fn record_success(
        &mut self,
        latency_ms: u64,
        body_bytes: u64,
        status: u16,
        server: Option<String>,
    )
        requires
            old(self).wf(),
            old(self).recorded() < usize::MAX,
        ensures
            final(self).wf(),
            old(self).success_step(final(self), latency_ms, body_bytes, status, server),
    {
        self.bytes_read = self.bytes_read.saturating_add(body_bytes);
        self.latencies.push(latency_ms);
        self.completed_requests = self.completed_requests + 1;
        if status / 100 != 2 {
            self.non_2xx_responses = self.non_2xx_responses + 1;
        }
        if self.server_software.as_str().unicode_len() == 0 {
            if let Some(name) = server {
                self.server_software = name;
            }
        }
    }

    /// Records a request that got no response.
    pub fn record_failure(&mut self, timed_out: bool)
        requires
            old(self).wf(),
            old(self).recorded() < usize::MAX,
        ensures
            final(self).wf(),
            old(self).failure_step(final(self), timed_out),
    {
        self.failed_requests = self.failed_requests + 1;
        if timed_out {
            self.timeouts = self.timeouts + 1;
        }
    }

    /// Records the outcome of one request.
    pub fn record(&mut self, outcome: RequestOutcome)
        requires
            old(self).wf(),
            old(self).recorded() < usize::MAX,
        ensures
            final(self).wf(),
            final(self).recorded() == old(self).recorded() + 1,
            match outcome {
                RequestOutcome::Success { status, body_bytes, server, latency_ms } => old(
                    self,
                ).success_step(final(self), latency_ms, body_bytes, status, server),
                RequestOutcome::Failure { timed_out } => old(self).failure_step(
                    final(self),
                    timed_out,
                ),
            },
    {
        match outcome {
            RequestOutcome::Success { status, body_bytes, server, latency_ms } => {
                self.record_success(latency_ms, body_bytes, status, server);
            },
            RequestOutcome::Failure { timed_out } => {
                self.record_failure(timed_out);
            },
        }
    }

    /// Moves the elapsed time forward; an earlier reading leaves it as it is.
    pub fn update_elapsed(&mut self, elapsed_us: u64)
        ensures
            final(self).elapsed_us == if elapsed_us > old(self).elapsed_us {
                elapsed_us
            } else {
                old(self).elapsed_us
            },
            final(self).elapsed_us >= old(self).elapsed_us,
            final(self).completed_requests == old(self).completed_requests,
            final(self).failed_requests == old(self).failed_requests,
            final(self).timeouts == old(self).timeouts,
            final(self).latencies == old(self).latencies,
            final(self).bytes_read == old(self).bytes_read,
            final(self).non_2xx_responses == old(self).non_2xx_responses,
            final(self).server_software == old(self).server_software,
            final(self).host == old(self).host,
            final(self).port == old(self).port,
            final(self).concurrency == old(self).concurrency,
    {
        if elapsed_us > self.elapsed_us {
            self.elapsed_us = elapsed_us;
        }
    }

    /// Records the host and port that the run targets.
    pub fn set_endpoint(&mut self, host: String, port: u16)
        ensures
            final(self).host == host,
            final(self).port == port,
            final(self).completed_requests == old(self).completed_requests,
            final(self).failed_requests == old(self).failed_requests,
            final(self).timeouts == old(self).timeouts,
            final(self).latencies == old(self).latencies,
            final(self).bytes_read == old(self).bytes_read,
            final(self).non_2xx_responses == old(self).non_2xx_responses,
            final(self).server_software == old(self).server_software,
            final(self).concurrency == old(self).concurrency,
            final(self).elapsed_us == old(self).elapsed_us,
    {
        self.host = host;
        self.port = port;
    }

    /// A copy of every field as it stands.
    pub fn snapshot(&self) -> (r: Report)
        ensures
            r.completed_requests == self.completed_requests,
            r.failed_requests == self.failed_requests,
            r.timeouts == self.timeouts,
            r.latencies@ == self.latencies@,
            r.bytes_read == self.bytes_read,
            r.non_2xx_responses == self.non_2xx_responses,
            r.server_software == self.server_software,
            r.host == self.host,
            r.port == self.port,
            r.concurrency == self.concurrency,
            r.elapsed_us == self.elapsed_us,
            self.wf() ==> r.wf(),
    {
        let latencies = copy_values(&self.latencies);
        Report {
            server_software: self.server_software.clone(),
            host: self.host.clone(),
            port: self.port,
            completed_requests: self.completed_requests,
            failed_requests: self.failed_requests,
            timeouts: self.timeouts,
            bytes_read: self.bytes_read,
            non_2xx_responses: self.non_2xx_responses,
            concurrency: self.concurrency,
            elapsed_us: self.elapsed_us,
            latencies,
        }
    }
}

impl Default for Report {
    fn default() -> (r: Report)
        ensures
            r.wf(),
            r.completed_requests == 0,
            r.failed_requests == 0,
            r.timeouts == 0,
            r.bytes_read == 0,
            r.non_2xx_responses == 0,
            r.concurrency == 0,
            r.elapsed_us == 0,
            r.latencies@ == Seq::<u64>::empty(),
            r.server_software@ == Seq::<char>::empty(),
            r.host@ == Seq::<char>::empty(),
            r.port == 0,
    {
        Report::new(0)
    }
}

} // verus!
