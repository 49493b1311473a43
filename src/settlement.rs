use vstd::prelude::*;

verus! {

/// The text of `base`, read as a URL, with `segment` appended to its path;
/// `None` where `base` is no URL or cannot take path segments.
pub uninterp spec fn url_with_segment_of(base: Seq<char>, segment: Seq<char>) -> Option<
    Seq<char>,
>;

/// The compact JSON text of the object with the single string member
/// `key: value`.
pub uninterp spec fn json_string_object_of(key: Seq<char>, value: Seq<char>) -> Seq<char>;

/// A character that JSON writes as itself inside a string: no quote, no
/// backslash, no control character below U+0020.
pub open spec fn is_plain_json_char(c: char) -> bool {
    c != '"' && c != '\\' && c >= ' '
}

/// Text whose every character is written as itself inside a JSON string.
pub open spec fn is_plain_json_text(s: Seq<char>) -> bool {
    forall|i: int| 0 <= i < s.len() ==> is_plain_json_char(#[trigger] s[i])
}

/// `{"key":"value"}`, for a key and a value that need no escapes.
pub open spec fn plain_json_object(key: Seq<char>, value: Seq<char>) -> Seq<char> {
    seq!['{', '"'] + key + seq!['"', ':', '"'] + value + seq!['"', '}']
}

/// Relies on `url::Url::parse`, `Url::path_segments_mut` and
/// `PathSegmentsMut::push`: the result depends on the two texts alone, and is
/// `None` where parsing fails or the URL cannot be a base.
#[verifier::external_body]
fn push_url_segment(base: &str, segment: &str) -> (r: Option<String>)
    ensures
        r matches Some(s) ==> url_with_segment_of(base@, segment@) == Some(s@),
        r is None ==> url_with_segment_of(base@, segment@) is None,
{
    let mut url = url::Url::parse(base).ok()?;
    url.path_segments_mut().ok()?.push(segment);
    Some(url.into())
}

/// Relies on `serde_json::Map::insert` and `Display for serde_json::Value`
/// (the compact form): the text depends on `key` and `value` alone, and a
/// string with no quote, backslash or control character is written unescaped
/// between quotes.
#[verifier::external_body]
fn json_string_object(key: &str, value: &str) -> (r: String)
    ensures
        r@ == json_string_object_of(key@, value@),
        is_plain_json_text(key@) && is_plain_json_text(value@) ==> r@ == plain_json_object(
            key@,
            value@,
        ),
{
    let mut object = serde_json::Map::new();
    object.insert(key.to_string(), serde_json::Value::String(value.to_string()));
    serde_json::Value::Object(object).to_string()
}

/// The path segment that a settlement engine serves account creation under.
pub const ACCOUNTS_ENDPOINT: &'static str = "accounts";

/// The JSON member that names the account in an account-creation notice.
pub const ACCOUNT_ID_KEY: &'static str = "id";

/// Delay before retrying an attempt that timed out, in milliseconds.
pub const RETRY_DELAY_MS: u64 = 1000;

/// How one attempt to reach the settlement engine failed.
#[derive(Debug, Clone, Copy, PartialEq, Eq, Structural)]
pub enum FailureKind {
    /// The engine answered that it rejects the request.
    ServerError,
    /// The attempt did not finish within its timeout.
    Timeout,
    /// Any other transport failure (refused, reset, name lookup).
    Other,
}

/// Why a delivery ended without success.
#[derive(Debug, Clone, Copy, PartialEq, Eq, Structural)]
pub enum DeliveryError {
    /// The engine rejected the request; retrying cannot help.
    Permanent,
    /// Every attempt of the budget has failed.
    Exhausted,
}

/// What to do after a failed attempt.
#[derive(Debug, Clone, Copy, PartialEq, Eq, Structural)]
pub enum RetryPolicy {
    /// Try again at once.
    Repeat,
    /// Try again after the given number of milliseconds.
    WaitRetry(u64),
    /// Stop and hand the error to the caller.
    ForwardError(DeliveryError),
}

/// Counts the failed attempts of one delivery and decides what follows each.
#[derive(Debug, Clone, Copy, PartialEq, Eq, Structural)]
pub struct IoHandler {
    /// Failures that may be followed by another attempt.
    pub max_attempts: usize,
    /// Failures seen so far.
    pub current_attempt: usize,
}

impl IoHandler {
    /// The state after a failure of kind `e`, and the decision taken.
    /// Every failure raises the counter by one; once it exceeds the budget the
    /// delivery is exhausted, whatever the kind of failure.
    pub open spec fn spec_handle(self, e: FailureKind) -> (IoHandler, RetryPolicy) {
        let next = IoHandler {
            max_attempts: self.max_attempts,
            current_attempt: (self.current_attempt + 1) as usize,
        };
        let policy = if next.current_attempt > self.max_attempts {
            RetryPolicy::ForwardError(DeliveryError::Exhausted)
        } else {
            match e {
                FailureKind::ServerError => RetryPolicy::ForwardError(DeliveryError::Permanent),
                FailureKind::Timeout => RetryPolicy::WaitRetry(RETRY_DELAY_MS),
                FailureKind::Other => RetryPolicy::Repeat,
            }
        };
        (next, policy)
    }

    /// A fresh handler with a budget of `max_attempts` retries.
    pub fn new(max_attempts: usize) -> (r: IoHandler)
        ensures
            r.max_attempts == max_attempts,
            r.current_attempt == 0,
    {
        IoHandler { max_attempts, current_attempt: 0 }
    }

    /// Records a failed attempt and decides what follows it: a rejection by the
    /// engine is final, a timeout is retried after `RETRY_DELAY_MS`, any other
    /// failure at once; once the budget is spent every failure is final.
    pub fn handle(&mut self, e: FailureKind) -> (r: RetryPolicy)
        requires
            old(self).current_attempt < usize::MAX,
        ensures
            (*final(self), r) == old(self).spec_handle(e),
    {
        self.current_attempt = self.current_attempt + 1;
        if self.current_attempt > self.max_attempts {
            return RetryPolicy::ForwardError(DeliveryError::Exhausted);
        }
        match e {
            FailureKind::ServerError => RetryPolicy::ForwardError(DeliveryError::Permanent),
            FailureKind::Timeout => RetryPolicy::WaitRetry(RETRY_DELAY_MS),
            FailureKind::Other => RetryPolicy::Repeat,
        }
    }
}

/// The decisions a handler takes on the failures `fs`, in order.
pub open spec fn run_policies(h: IoHandler, fs: Seq<FailureKind>) -> Seq<RetryPolicy>
    decreases fs.len(),
{
    if fs.len() == 0 {
        Seq::empty()
    } else {
        let (next, p) = h.spec_handle(fs[0]);
        seq![p] + run_policies(next, fs.drop_first())
    }
}

/// The handler after the failures `fs`, in order.
pub open spec fn run_handler(h: IoHandler, fs: Seq<FailureKind>) -> IoHandler
    decreases fs.len(),
{
    if fs.len() == 0 {
        h
    } else {
        run_handler(h.spec_handle(fs[0]).0, fs.drop_first())
    }
}

/// `k` failures of one kind.
pub open spec fn repeated(e: FailureKind, k: nat) -> Seq<FailureKind> {
    Seq::new(k, |i: int| e)
}

proof fn lemma_timeouts_from(h: IoHandler, k: nat)
    requires
        h.current_attempt <= h.max_attempts < usize::MAX,
        k == h.max_attempts - h.current_attempt + 1,
    ensures
        run_policies(h, repeated(FailureKind::Timeout, k)).len() == k,
        forall|i: int|
            0 <= i < k - 1 ==> #[trigger] run_policies(h, repeated(FailureKind::Timeout, k))[i]
                == RetryPolicy::WaitRetry(RETRY_DELAY_MS),
        run_policies(h, repeated(FailureKind::Timeout, k))[k - 1] == RetryPolicy::ForwardError(
            DeliveryError::Exhausted,
        ),
        run_handler(h, repeated(FailureKind::Timeout, k)) == (IoHandler {
            max_attempts: h.max_attempts,
            current_attempt: (h.max_attempts + 1) as usize,
        }),
    decreases k,
{
    let fs = repeated(FailureKind::Timeout, k);
    let (next, p) = h.spec_handle(fs[0]);
    assert(fs.drop_first() =~= repeated(FailureKind::Timeout, (k - 1) as nat));
    if h.current_attempt < h.max_attempts {
        lemma_timeouts_from(next, (k - 1) as nat);
        assert(run_policies(next, fs.drop_first()).len() == k - 1);
    } else {
        assert(k == 1);
        assert(fs.drop_first().len() == 0);
        assert(run_handler(next, fs.drop_first()) == next);
    }
}

/// A delivery whose every attempt times out, under a budget of `n` retries,
/// is retried `n` times, each after the fixed delay; the failure of the
/// `n + 1`-th attempt ends it as exhausted, with `n + 1` failures counted.
pub proof fn lemma_timeouts_exhaust_budget(n: usize)
    requires
        n < usize::MAX,
    ensures
        ({
            let h = IoHandler { max_attempts: n, current_attempt: 0 };
            let fs = repeated(FailureKind::Timeout, (n + 1) as nat);
            let ps = run_policies(h, fs);
            &&& ps.len() == n + 1
            &&& forall|i: int| 0 <= i < n ==> #[trigger] ps[i] == RetryPolicy::WaitRetry(RETRY_DELAY_MS)
            &&& ps[n as int] == RetryPolicy::ForwardError(DeliveryError::Exhausted)
            &&& run_handler(h, fs).current_attempt == n + 1
        }),
{
    lemma_timeouts_from(IoHandler { max_attempts: n, current_attempt: 0 }, (n + 1) as nat);
}

/// A rejection by the engine on the first attempt ends the delivery as a
/// permanent failure, without a retry, whenever the budget allows a retry.
pub proof fn lemma_server_error_is_final(n: usize)
    requires
        n > 0,
    ensures
        (IoHandler { max_attempts: n, current_attempt: 0 }).spec_handle(FailureKind::ServerError).1
            == RetryPolicy::ForwardError(DeliveryError::Permanent),
{
}

/// A client that tells settlement engines of accounts created on this node.
#[derive(Debug, Clone, Copy, PartialEq, Eq, Structural)]
pub struct Client {
    /// Time allowed to each attempt, in milliseconds.
    pub timeout_ms: u64,
    /// Retries allowed after the first attempt.
    pub max_retries: usize,
}

/// One account-creation notice, ready to be sent: where, what, and under
/// which timeout and retry budget.
#[derive(Debug)]
pub struct EngineAccountRequest {
    /// The engine's account endpoint.
    pub url: String,
    /// The JSON body naming the account.
    pub body: String,
    /// Time allowed to each attempt, in milliseconds.
    pub timeout_ms: u64,
    /// Decides on each failed attempt.
    pub handler: IoHandler,
}

impl Client {
    /// A client whose attempts each get `timeout_ms` milliseconds, with up to
    /// `max_retries` retries per notice.
    pub fn new(timeout_ms: u64, max_retries: usize) -> (r: Client)
        ensures
            r.timeout_ms == timeout_ms,
            r.max_retries == max_retries,
    {
        Client { timeout_ms, max_retries }
    }

    /// The notice that account `id` was created, addressed to the `accounts`
    /// endpoint under `engine_url`; `None` where `engine_url` cannot take that
    /// path segment.
    pub fn create_engine_account(&self, engine_url: &str, id: &str) -> (r: Option<
        EngineAccountRequest,
    >)
        ensures
            r is None <==> url_with_segment_of(engine_url@, ACCOUNTS_ENDPOINT@) is None,
            r matches Some(req) ==> {
                &&& Some(req.url@) == url_with_segment_of(engine_url@, ACCOUNTS_ENDPOINT@)
                &&& req.body@ == json_string_object_of(ACCOUNT_ID_KEY@, id@)
                &&& is_plain_json_text(id@) ==> req.body@ == plain_json_object(
                    ACCOUNT_ID_KEY@,
                    id@,
                )
                &&& req.timeout_ms == self.timeout_ms
                &&& req.handler == (IoHandler { max_attempts: self.max_retries, current_attempt: 0 })
            },
    {
        match push_url_segment(engine_url, ACCOUNTS_ENDPOINT) {
            None => None,
            Some(url) => {
                let body = json_string_object(ACCOUNT_ID_KEY, id);
                proof {
                    reveal_strlit("id");
                    assert(is_plain_json_char(ACCOUNT_ID_KEY@[0]));
                    assert(is_plain_json_char(ACCOUNT_ID_KEY@[1]));
                }
                Some(
                    EngineAccountRequest {
                        url,
                        body,
                        timeout_ms: self.timeout_ms,
                        handler: IoHandler::new(self.max_retries),
                    },
                )
            },
        }
    }
}

} // verus!
