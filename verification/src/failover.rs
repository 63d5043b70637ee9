//! Failover across AI providers: the primary endpoint first, then each
//! fallback in turn, with a bounded number of attempts per endpoint.
//!
//! The HTTP exchange itself happens outside the library; these functions
//! decide, from what one attempt came back with, whether to try again,
//! move on to the next provider, or stop with an answer.
use crate::text::{chars_of, contains, contains_str, starts_with, starts_with_str};
use vstd::prelude::*;

verus! {

/// Attempts made against one provider before giving up on it.
pub const MAX_ATTEMPTS: u32 = 2;

/// Upper bound, in seconds, on a whole chat exchange across all providers.
pub const GLOBAL_TIMEOUT_SECS: u64 = 120;

/// Seconds to wait before a repeated attempt.
pub const RETRY_DELAY_SECS: u64 = 2;

/// One AI service endpoint.
#[derive(Debug, Clone)]
pub struct AiProvider {
    pub name: String,
    pub base_url: String,
    pub api_key: String,
    pub model: String,
}

/// The providers of a chat client: the primary one and its fallbacks, in
/// the order in which they are tried.
#[derive(Debug, Clone)]
pub struct AiClient {
    pub primary: AiProvider,
    pub fallbacks: Vec<AiProvider>,
}

pub open spec fn provider_is(p: AiProvider, name: Seq<char>, base_url: Seq<char>, api_key: Seq<char>, model: Seq<char>) -> bool {
    &&& p.name@ == name
    &&& p.base_url@ == base_url
    &&& p.api_key@ == api_key
    &&& p.model@ == model
}

impl AiClient {
    /// A client with one provider, named "primary", and no fallbacks.
    pub fn with_config(base_url: &str, api_key: &str, model: &str) -> (c: AiClient)
        ensures
            provider_is(c.primary, "primary"@, base_url@, api_key@, model@),
            c.fallbacks@.len() == 0,
    {
        AiClient {
            primary: AiProvider {
                name: "primary".to_string(),
                base_url: base_url.to_string(),
                api_key: api_key.to_string(),
                model: model.to_string(),
            },
            fallbacks: Vec::new(),
        }
    }

    /// Appends a fallback provider, tried after all those already present.
    pub fn add_fallback(&mut self, base_url: &str, api_key: &str, model: &str, name: &str)
        ensures
            final(self).primary == old(self).primary,
            final(self).fallbacks@.len() == old(self).fallbacks@.len() + 1,
            final(self).fallbacks@.take(old(self).fallbacks@.len() as int) == old(self).fallbacks@,
            provider_is(final(self).fallbacks@.last(), name@, base_url@, api_key@, model@),
    {
        self.fallbacks.push(
            AiProvider {
                name: name.to_string(),
                base_url: base_url.to_string(),
                api_key: api_key.to_string(),
                model: model.to_string(),
            },
        );
    }

    /// How many providers the client holds, the primary included.
    pub fn provider_count(&self) -> (n: usize)
        requires
            self.fallbacks@.len() < usize::MAX,
        ensures
            n == self.fallbacks@.len() + 1,
    {
        self.fallbacks.len() + 1
    }

    /// The provider tried at position `i`: the primary at 0, fallback
    /// `i - 1` after it.
    pub fn provider_at(&self, i: usize) -> (p: &AiProvider)
        requires
            i <= self.fallbacks@.len(),
        ensures
            i == 0 ==> *p == self.primary,
            i > 0 ==> *p == self.fallbacks@[i - 1],
    {
        if i == 0 {
            &self.primary
        } else {
            &self.fallbacks[i - 1]
        }
    }
}

/// Why one provider gave no answer.
#[derive(Debug, Clone, PartialEq, Eq)]
pub enum ProviderError {
    /// The provider answered with status 429.
    RateLimited,
    /// The provider answered with status 401 or 403.
    AuthRejected,
    /// The response body could not be read on the last attempt.
    ReadInterrupted,
    /// A local endpoint refused the connection: no cloud provider is set up.
    LocalNotConfigured,
    /// The request failed before any response; the transport's message.
    Transport(String),
}

impl ProviderError {
    /// The message shown to the user.
    pub fn message(&self) -> (m: String)
        ensures
            m@ == match self {
                ProviderError::RateLimited => "AI 频率限制，请稍后再试"@,
                ProviderError::AuthRejected => "AI API Key 无效或已过期。请到「设置」页面检查 API Key 配置。"@,
                ProviderError::ReadInterrupted => "AI 响应读取失败（连接中断）。可能原因：\n1. API Key 无效或余额不足\n2. 网络不稳定\n3. AI 服务暂时不可用\n请到「设置」检查 AI 配置。"@,
                ProviderError::LocalNotConfigured => "AI 未配置。请打开「设置」页面，配置云端 AI 服务（如智谱 GLM、OpenRouter 等）。当前默认连接本地 Ollama (localhost:11434)，手机端不可用。"@,
                ProviderError::Transport(t) => t@,
            },
    {
        match self {
            ProviderError::RateLimited => "AI 频率限制，请稍后再试".to_string(),
            ProviderError::AuthRejected => "AI API Key 无效或已过期。请到「设置」页面检查 API Key 配置。".to_string(),
            ProviderError::ReadInterrupted => "AI 响应读取失败（连接中断）。可能原因：\n1. API Key 无效或余额不足\n2. 网络不稳定\n3. AI 服务暂时不可用\n请到「设置」检查 AI 配置。".to_string(),
            ProviderError::LocalNotConfigured => "AI 未配置。请打开「设置」页面，配置云端 AI 服务（如智谱 GLM、OpenRouter 等）。当前默认连接本地 Ollama (localhost:11434)，手机端不可用。".to_string(),
            ProviderError::Transport(m) => m.clone(),
        }
    }
}

/// What one attempt against a provider came back with.
#[derive(Debug, Clone)]
pub enum AttemptReply {
    /// A response with this status; `content` is the text taken from its
    /// body, or `None` when the body could not be read.
    Response { status: u16, content: Option<String> },
    /// The request failed before any response.
    SendFailed { connect: bool, timeout: bool, message: String },
}

/// What to do after one attempt.
#[derive(Debug)]
pub enum AttemptStep {
    /// Wait and ask the same provider again.
    Retry,
    /// Stop asking this provider, with this outcome.
    Finish(Result<String, ProviderError>),
}

/// Whether an endpoint is a local one.
pub open spec fn is_local(base_url: Seq<char>) -> bool {
    contains(base_url, "localhost"@)
}

/// Whether a reply text is an error reported by the provider.
pub open spec fn is_error_text(content: Seq<char>) -> bool {
    starts_with(content, "AI 错误"@)
}

/// Whether the attempt numbered `attempt` (from 0) leaves room for another.
pub open spec fn may_retry(attempt: nat, max: nat) -> bool {
    attempt + 1 < max
}

/// The decision after attempt number `attempt` out of `max`, in terms of
/// views: `None` for a retry, else the outcome.
pub open spec fn attempt_spec(attempt: nat, max: nat, reply: AttemptReply, base_url: Seq<char>) -> Option<
    Result<Seq<char>, ProviderError>,
> {
    match reply {
        AttemptReply::Response { status, content } => {
            if status == 429 {
                Some(Err(ProviderError::RateLimited))
            } else if status == 401 || status == 403 {
                Some(Err(ProviderError::AuthRejected))
            } else {
                match content {
                    None => if may_retry(attempt, max) {
                        None
                    } else {
                        Some(Err(ProviderError::ReadInterrupted))
                    },
                    Some(c) => if may_retry(attempt, max) && ((500 <= status && status < 600)
                        || is_error_text(c@)) {
                        None
                    } else {
                        Some(Ok(c@))
                    },
                }
            }
        },
        AttemptReply::SendFailed { connect, timeout, message } => {
            if connect && is_local(base_url) {
                Some(Err(ProviderError::LocalNotConfigured))
            } else if may_retry(attempt, max) && (timeout || connect) {
                None
            } else {
                Some(Err(ProviderError::Transport(message)))
            }
        },
    }
}

pub open spec fn step_view(s: AttemptStep) -> Option<Result<Seq<char>, ProviderError>> {
    match s {
        AttemptStep::Retry => None,
        AttemptStep::Finish(Ok(c)) => Some(Ok(c@)),
        AttemptStep::Finish(Err(e)) => Some(Err(e)),
    }
}

/// Decides what follows attempt number `attempt` (from 0) out of
/// `max_attempts` against the provider at `base_url`.
pub fn attempt_step(attempt: u32, max_attempts: u32, reply: AttemptReply, base_url: &str) -> (r:
    AttemptStep)
    requires
        attempt < max_attempts,
    ensures
        step_view(r) == attempt_spec(attempt as nat, max_attempts as nat, reply, base_url@),
{
    let more = attempt + 1 < max_attempts;
    match reply {
        AttemptReply::Response { status, content } => {
            if status == 429 {
                AttemptStep::Finish(Err(ProviderError::RateLimited))
            } else if status == 401 || status == 403 {
                AttemptStep::Finish(Err(ProviderError::AuthRejected))
            } else {
                match content {
                    None => if more {
                        AttemptStep::Retry
                    } else {
                        AttemptStep::Finish(Err(ProviderError::ReadInterrupted))
                    },
                    Some(c) => {
                        let cv = chars_of(c.as_str());
                        let server_error = 500 <= status && status < 600;
                        if more && (server_error || starts_with_str(cv.as_slice(), "AI 错误")) {
                            AttemptStep::Retry
                        } else {
                            AttemptStep::Finish(Ok(c))
                        }
                    },
                }
            }
        },
        AttemptReply::SendFailed { connect, timeout, message } => {
            let uv = chars_of(base_url);
            if connect && contains_str(uv.as_slice(), "localhost") {
                AttemptStep::Finish(Err(ProviderError::LocalNotConfigured))
            } else if more && (timeout || connect) {
                AttemptStep::Retry
            } else {
                AttemptStep::Finish(Err(ProviderError::Transport(message)))
            }
        },
    }
}

/// The outcome of asking one provider, attempt after attempt, when the
/// attempts come back with `replies` in turn: the outcome and the number of
/// attempts made.
pub open spec fn attempts_run(replies: Seq<AttemptReply>, max: nat, base_url: Seq<char>, i: nat) -> (
    Option<Result<Seq<char>, ProviderError>>,
    nat,
)
    decreases replies.len() - i,
{
    if i >= replies.len() || i >= max {
        (None, i)
    } else {
        match attempt_spec(i, max, replies[i as int], base_url) {
            Some(o) => (Some(o), i + 1),
            None => attempts_run(replies, max, base_url, i + 1),
        }
    }
}

/// Law: a provider is asked at most `max` times; when it has been asked
/// `max` times it has given an outcome; and the last attempt always ends
/// with one.
pub proof fn lemma_attempts_bounded(replies: Seq<AttemptReply>, max: nat, base_url: Seq<char>, i: nat)
    requires
        i <= max,
    ensures
        attempts_run(replies, max, base_url, i).1 <= max,
        replies.len() >= max && 0 < max && i < max ==> attempts_run(replies, max, base_url, i).0
            is Some,
        forall|r: AttemptReply| #[trigger] attempt_spec((max - 1) as nat, max, r, base_url) is Some
            || max == 0,
    decreases replies.len() - i,
{
    if i < replies.len() && i < max {
        lemma_attempts_bounded(replies, max, base_url, i + 1);
    }
}

/// Law: a rate limit or a rejected key ends the exchange with that
/// provider at once, whatever attempt it comes on.
pub proof fn lemma_no_retry_on_refusal(attempt: nat, max: nat, status: u16, content: Option<String>, base_url: Seq<char>)
    requires
        status == 429 || status == 401 || status == 403,
    ensures
        attempt_spec(attempt, max, AttemptReply::Response { status, content }, base_url) == Some(
            Err::<Seq<char>, ProviderError>(
                if status == 429 {
                    ProviderError::RateLimited
                } else {
                    ProviderError::AuthRejected
                },
            ),
        ),
{
}

/// What to do after the provider at position `index` gave an outcome.
#[derive(Debug)]
pub enum FailoverStep {
    /// Ask the provider at this position next.
    Try(usize),
    /// Stop with this answer.
    Finish(Result<String, ProviderError>),
}

pub open spec fn failover_spec(index: nat, n_fallbacks: nat, outcome: Result<Seq<char>, ProviderError>) -> Option<
    Result<Seq<char>, ProviderError>,
> {
    match outcome {
        Ok(c) => Some(Ok(c)),
        Err(e) => if index < n_fallbacks {
            None
        } else {
            Some(Err(e))
        },
    }
}

pub open spec fn result_view(o: Result<String, ProviderError>) -> Result<Seq<char>, ProviderError> {
    match o {
        Ok(c) => Ok(c@),
        Err(e) => Err(e),
    }
}

/// Decides what follows the outcome of the provider at `index` (0 for the
/// primary, `i` for fallback `i - 1`) when there are `n_fallbacks`
/// fallbacks: an answer ends the exchange; a failure moves on to the next
/// provider, and the failure of the last one is the final answer.
pub fn failover_step(index: usize, n_fallbacks: usize, outcome: Result<String, ProviderError>) -> (r:
    FailoverStep)
    requires
        index <= n_fallbacks,
    ensures
        r matches FailoverStep::Try(j) ==> j == index + 1 && failover_spec(
            index as nat,
            n_fallbacks as nat,
            result_view(outcome),
        ) is None,
        r matches FailoverStep::Finish(o) ==> failover_spec(
            index as nat,
            n_fallbacks as nat,
            result_view(outcome),
        ) == Some(result_view(o)),
        r is Try || r is Finish,
{
    match outcome {
        Ok(c) => FailoverStep::Finish(Ok(c)),
        Err(e) => if index < n_fallbacks {
            FailoverStep::Try(index + 1)
        } else {
            FailoverStep::Finish(Err(e))
        },
    }
}

/// The answer of a whole exchange when the providers, in order, give
/// `outcomes`: the answer and the number of providers asked.
pub open spec fn failover_run(outcomes: Seq<Result<Seq<char>, ProviderError>>, i: nat) -> (
    Result<Seq<char>, ProviderError>,
    nat,
)
    recommends
        i < outcomes.len(),
    decreases outcomes.len() - i,
{
    if i + 1 >= outcomes.len() {
        (outcomes[i as int], i + 1)
    } else {
        match failover_spec(i, (outcomes.len() - 1) as nat, outcomes[i as int]) {
            Some(o) => (o, i + 1),
            None => failover_run(outcomes, i + 1),
        }
    }
}

/// Law: when one provider fails the next one is asked. Every provider asked
/// before the one that answered failed; the answer is that provider's own
/// outcome; and a failure is only returned once every provider has failed,
/// as the failure of the last one.
pub proof fn lemma_failover_order(outcomes: Seq<Result<Seq<char>, ProviderError>>, i: nat)
    requires
        i < outcomes.len(),
    ensures
        i < failover_run(outcomes, i).1 <= outcomes.len(),
        failover_run(outcomes, i).0 == outcomes[failover_run(outcomes, i).1 - 1],
        forall|k: int| i <= k < failover_run(outcomes, i).1 - 1 ==> #[trigger] outcomes[k] is Err,
        failover_run(outcomes, i).0 is Err ==> failover_run(outcomes, i).1 == outcomes.len(),
    decreases outcomes.len() - i,
{
    if i + 1 < outcomes.len() {
        lemma_failover_order(outcomes, i + 1);
    }
}

} // verus!
