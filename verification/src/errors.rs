//! The gateway's error type, the per-provider failure record it carries
//! after a fallback run, and the text forms in which both are shown.

use vstd::prelude::*;
use crate::text::{concat_str, join_strings, joined, views};

verus! {

/// The stage of request handling at which an error arose.
#[derive(Debug, Clone, Copy, PartialEq, Eq, Structural)]
pub enum ErrorStage {
    Validation,
    Config,
    Provider,
    Gateway,
    Transport,
    Serialization,
}

/// One provider's failure during a fallback run.
#[derive(Debug, Clone)]
pub struct ProviderFailure {
    pub provider: String,
    pub code: String,
    pub message: String,
    pub retryable: bool,
    pub stage: ErrorStage,
}

/// The mathematical value of a [`ProviderFailure`].
pub struct ProviderFailureView {
    pub provider: Seq<char>,
    pub code: Seq<char>,
    pub message: Seq<char>,
    pub retryable: bool,
    pub stage: ErrorStage,
}

impl View for ProviderFailure {
    type V = ProviderFailureView;

    open spec fn view(&self) -> ProviderFailureView {
        ProviderFailureView {
            provider: self.provider@,
            code: self.code@,
            message: self.message@,
            retryable: self.retryable,
            stage: self.stage,
        }
    }
}

/// The views of a sequence of failures.
pub open spec fn failure_views(v: Seq<ProviderFailure>) -> Seq<ProviderFailureView> {
    v.map_values(|f: ProviderFailure| f@)
}

/// An error of the gateway, with the fallback context that a failed run
/// across providers attaches to it.
#[derive(Debug, Clone)]
pub struct GatewayError {
    pub code: String,
    pub message: String,
    pub retryable: bool,
    pub provider: Option<String>,
    pub stage: ErrorStage,
    pub fallback_attempted: bool,
    pub attempted_providers: Option<Vec<String>>,
    pub fallback_failures: Option<Vec<ProviderFailure>>,
}

/// The mathematical value of a [`GatewayError`].
pub struct GatewayErrorView {
    pub code: Seq<char>,
    pub message: Seq<char>,
    pub retryable: bool,
    pub provider: Option<Seq<char>>,
    pub stage: ErrorStage,
    pub fallback_attempted: bool,
    pub attempted_providers: Option<Seq<Seq<char>>>,
    pub fallback_failures: Option<Seq<ProviderFailureView>>,
}

pub open spec fn opt_string_view(o: Option<String>) -> Option<Seq<char>> {
    match o {
        Some(s) => Some(s@),
        None => None,
    }
}

impl View for GatewayError {
    type V = GatewayErrorView;

    open spec fn view(&self) -> GatewayErrorView {
        GatewayErrorView {
            code: self.code@,
            message: self.message@,
            retryable: self.retryable,
            provider: opt_string_view(self.provider),
            stage: self.stage,
            fallback_attempted: self.fallback_attempted,
            attempted_providers: match self.attempted_providers {
                Some(v) => Some(views(v@)),
                None => None,
            },
            fallback_failures: match self.fallback_failures {
                Some(v) => Some(failure_views(v@)),
                None => None,
            },
        }
    }
}

/// An error with no provider and no fallback context.
pub open spec fn plain_error(code: Seq<char>, message: Seq<char>, stage: ErrorStage) -> GatewayErrorView {
    GatewayErrorView {
        code,
        message,
        retryable: false,
        provider: None,
        stage,
        fallback_attempted: false,
        attempted_providers: None,
        fallback_failures: None,
    }
}

pub open spec fn validation_error(message: Seq<char>) -> GatewayErrorView {
    plain_error("validation_error"@, message, ErrorStage::Validation)
}

pub open spec fn config_error(message: Seq<char>) -> GatewayErrorView {
    plain_error("config_error"@, message, ErrorStage::Config)
}

pub open spec fn gateway_error(message: Seq<char>) -> GatewayErrorView {
    plain_error("gateway_error"@, message, ErrorStage::Gateway)
}

pub open spec fn transport_error(message: Seq<char>) -> GatewayErrorView {
    plain_error("transport_error"@, message, ErrorStage::Transport)
}

pub open spec fn serialization_error(message: Seq<char>) -> GatewayErrorView {
    plain_error("serialization_error"@, message, ErrorStage::Serialization)
}

/// An error that a provider reports.
pub open spec fn provider_error(
    provider: Seq<char>,
    code: Seq<char>,
    message: Seq<char>,
    retryable: bool,
) -> GatewayErrorView {
    GatewayErrorView {
        code,
        message,
        retryable,
        provider: Some(provider),
        stage: ErrorStage::Provider,
        fallback_attempted: false,
        attempted_providers: None,
        fallback_failures: None,
    }
}

impl GatewayErrorView {
    /// The error with the context of a fallback run attached: whether more
    /// than one provider was tried, which ones, and how each one failed.
    pub open spec fn with_context(
        self,
        attempted: Seq<Seq<char>>,
        failures: Seq<ProviderFailureView>,
    ) -> GatewayErrorView {
        GatewayErrorView {
            fallback_attempted: attempted.len() > 1,
            attempted_providers: if attempted.len() > 0 {
                Some(attempted)
            } else {
                None
            },
            fallback_failures: if failures.len() > 0 {
                Some(failures)
            } else {
                None
            },
            ..self
        }
    }

    /// The failure record of this error; an error that names no provider is
    /// recorded under "gateway".
    pub open spec fn as_failure(self) -> ProviderFailureView {
        ProviderFailureView {
            provider: match self.provider {
                Some(p) => p,
                None => "gateway"@,
            },
            code: self.code,
            message: self.message,
            retryable: self.retryable,
            stage: self.stage,
        }
    }

    /// The one-line text of the error: its code, a colon and its message.
    pub open spec fn display(self) -> Seq<char> {
        self.code + ": "@ + self.message
    }
}

/// The line that shows one failure: provider, code in brackets, message.
pub open spec fn failure_line(f: ProviderFailureView) -> Seq<char> {
    f.provider + " ["@ + f.code + "]: "@ + f.message
}

/// The lines that show an error to a person: the error itself, then the
/// providers that were attempted (when there were any), then one line per
/// failure.
pub open spec fn report_lines(e: GatewayErrorView) -> Seq<Seq<char>> {
    let attempted = match e.attempted_providers {
        Some(a) => if a.len() > 0 {
            seq!["attempted providers: "@ + joined(a, " -> "@)]
        } else {
            Seq::empty()
        },
        None => Seq::empty(),
    };
    let failures = match e.fallback_failures {
        Some(f) => f.map_values(|x: ProviderFailureView| failure_line(x)),
        None => Seq::empty(),
    };
    seq![e.display()] + attempted + failures
}

fn plain(code: &str, message: &str, stage: ErrorStage) -> (e: GatewayError)
    ensures
        e@ == plain_error(code@, message@, stage),
{
    GatewayError {
        code: code.to_owned(),
        message: message.to_owned(),
        retryable: false,
        provider: None,
        stage,
        fallback_attempted: false,
        attempted_providers: None,
        fallback_failures: None,
    }
}

impl GatewayError {
    /// An invalid request.
    pub fn validation(message: &str) -> (e: Self)
        ensures
            e@ == validation_error(message@),
    {
        plain("validation_error", message, ErrorStage::Validation)
    }

    /// A configuration that cannot be used.
    pub fn config(message: &str) -> (e: Self)
        ensures
            e@ == config_error(message@),
    {
        plain("config_error", message, ErrorStage::Config)
    }

    /// A failure reported by a provider.
    pub fn provider(provider: &str, code: &str, message: &str, retryable: bool) -> (e: Self)
        ensures
            e@ == provider_error(provider@, code@, message@, retryable),
    {
        GatewayError {
            code: code.to_owned(),
            message: message.to_owned(),
            retryable,
            provider: Some(provider.to_owned()),
            stage: ErrorStage::Provider,
            fallback_attempted: false,
            attempted_providers: None,
            fallback_failures: None,
        }
    }

    /// A failure of the gateway itself.
    pub fn gateway(message: &str) -> (e: Self)
        ensures
            e@ == gateway_error(message@),
    {
        plain("gateway_error", message, ErrorStage::Gateway)
    }

    /// A failure of the transport that carries requests and replies.
    pub fn transport(message: &str) -> (e: Self)
        ensures
            e@ == transport_error(message@),
    {
        plain("transport_error", message, ErrorStage::Transport)
    }

    /// A value that could not be serialized.
    pub fn serialization(message: &str) -> (e: Self)
        ensures
            e@ == serialization_error(message@),
    {
        plain("serialization_error", message, ErrorStage::Serialization)
    }

    /// The same error with its `fallback_attempted` flag set to `attempted`.
    pub fn with_fallback_attempted(self, attempted: bool) -> (e: Self)
        ensures
            e@ == (GatewayErrorView { fallback_attempted: attempted, ..self@ }),
    {
        let mut e = self;
        e.fallback_attempted = attempted;
        e
    }

    /// The same error with the context of a fallback run attached.
    pub fn with_fallback_context(
        self,
        attempted_providers: Vec<String>,
        fallback_failures: Vec<ProviderFailure>,
    ) -> (e: Self)
        ensures
            e@ == self@.with_context(views(attempted_providers@), failure_views(fallback_failures@)),
    {
        let mut e = self;
        e.fallback_attempted = attempted_providers.len() > 1;
        e.attempted_providers = if attempted_providers.len() > 0 {
            Some(attempted_providers)
        } else {
            None
        };
        e.fallback_failures = if fallback_failures.len() > 0 {
            Some(fallback_failures)
        } else {
            None
        };
        e
    }

    /// The failure record of this error.
    pub fn as_provider_failure(&self) -> (f: ProviderFailure)
        ensures
            f@ == self@.as_failure(),
    {
        ProviderFailure {
            provider: match &self.provider {
                Some(p) => p.clone(),
                None => "gateway".to_owned(),
            },
            code: self.code.clone(),
            message: self.message.clone(),
            retryable: self.retryable,
            stage: self.stage,
        }
    }

    /// The one-line text of the error, "code: message".
    pub fn display_text(&self) -> (s: String)
        ensures
            s@ == self@.display(),
    {
        let s = concat_str(self.code.as_str(), ": ");
        concat_str(s.as_str(), self.message.as_str())
    }

    /// The lines in which the error is shown to a person.
    pub fn report_lines(&self) -> (lines: Vec<String>)
        ensures
            views(lines@) == report_lines(self@),
    {
        let mut lines: Vec<String> = Vec::new();
        lines.push(self.display_text());
        let ghost attempted_part: Seq<Seq<char>> = Seq::empty();
        match &self.attempted_providers {
            Some(a) => {
                if a.len() > 0 {
                    let joined_names = join_strings(a, " -> ");
                    lines.push(concat_str("attempted providers: ", joined_names.as_str()));
                    proof {
                        attempted_part = seq!["attempted providers: "@ + joined(views(a@), " -> "@)];
                    }
                }
            },
            None => {},
        }
        let ghost head = seq![self@.display()] + attempted_part;
        assert(views(lines@) =~= head);
        match &self.fallback_failures {
            Some(f) => {
                let mut i: usize = 0;
                while i < f.len()
                    invariant
                        i <= f.len(),
                        views(lines@) == head + failure_views(f@).take(i as int).map_values(
                            |x: ProviderFailureView| failure_line(x),
                        ),
                    decreases f.len() - i,
                {
                    let item = &f[i];
                    let s1 = concat_str(item.provider.as_str(), " [");
                    let s2 = concat_str(s1.as_str(), item.code.as_str());
                    let s3 = concat_str(s2.as_str(), "]: ");
                    let s4 = concat_str(s3.as_str(), item.message.as_str());
                    let ghost before = views(lines@);
                    lines.push(s4);
                    assert(views(lines@) =~= before.push(s4@));
                    assert(failure_views(f@).take(i + 1).map_values(
                        |x: ProviderFailureView| failure_line(x),
                    ) =~= failure_views(f@).take(i as int).map_values(
                        |x: ProviderFailureView| failure_line(x),
                    ).push(failure_line(f@[i as int]@)));
                    i = i + 1;
                }
                assert(failure_views(f@).take(f.len() as int) =~= failure_views(f@));
            },
            None => {
                assert(views(lines@) =~= head + Seq::<Seq<char>>::empty());
            },
        }
        lines
    }
}

} // verus!
