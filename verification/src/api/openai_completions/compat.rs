//! What an OpenAI-compatible endpoint supports: detected from the provider and
//! the address, and overridden by what the model states.
use vstd::prelude::*;
use crate::number::Number;
use crate::text::{
    clone_opt, clone_texts, contains, contains_text, opt_text, starts_with, str_eq, texts,
};
use crate::types::{
    ChatTemplateKwargValue, Model, ModelCompat, OpenRouterRouting, VercelGatewayRouting,
};

verus! {

#[derive(Clone, Debug, PartialEq, Eq)]
pub struct ResolvedOpenAICompletionsCompat {
    pub supports_store: bool,
    pub supports_developer_role: bool,
    pub supports_reasoning_effort: bool,
    pub supports_usage_in_streaming: bool,
    pub supports_finish_reason: bool,
    pub max_tokens_field: String,
    pub requires_tool_result_name: bool,
    pub requires_assistant_after_tool_result: bool,
    pub requires_thinking_as_text: bool,
    pub requires_reasoning_content_on_assistant_messages: bool,
    pub thinking_format: String,
    pub open_router_routing: Option<OpenRouterRouting>,
    pub vercel_gateway_routing: Option<VercelGatewayRouting>,
    pub chat_template_kwargs: Option<Vec<(String, ChatTemplateKwargValue)>>,
    pub chat_template_args: Option<Vec<(String, ChatTemplateKwargValue)>>,
    pub zai_tool_stream: bool,
    pub supports_thinking_token_budget: bool,
    pub supports_strict_mode: bool,
    pub supports_openai_grammar_tools: bool,
    pub cache_control_format: Option<String>,
    pub send_session_affinity_headers: bool,
    pub deferred_tools_mode: Option<String>,
    pub session_affinity_format: String,
    pub supports_long_cache_retention: bool,
}

/// What the routing preferences for OpenRouter hold.
pub struct Routing {
    pub allow_fallbacks: Option<bool>,
    pub require_parameters: Option<bool>,
    pub data_collection: Option<Seq<char>>,
    pub zdr: Option<bool>,
    pub enforce_distillable_text: Option<bool>,
    pub order: Option<Seq<Seq<char>>>,
    pub only: Option<Seq<Seq<char>>>,
    pub ignore: Option<Seq<Seq<char>>>,
    pub quantizations: Option<Seq<Seq<char>>>,
}

/// What the routing preferences for the Vercel gateway hold.
pub struct GatewayRouting {
    pub only: Option<Seq<Seq<char>>>,
    pub order: Option<Seq<Seq<char>>>,
}

/// What a value for a chat template holds.
pub enum TemplateValue {
    Str(Seq<char>),
    Number(Number),
    Bool(bool),
    Null,
    Var { var: Seq<char>, omit_when_off: Option<bool> },
}

/// What the resolved settings hold.
pub struct Compat {
    pub supports_store: bool,
    pub supports_developer_role: bool,
    pub supports_reasoning_effort: bool,
    pub supports_usage_in_streaming: bool,
    pub supports_finish_reason: bool,
    pub max_tokens_field: Seq<char>,
    pub requires_tool_result_name: bool,
    pub requires_assistant_after_tool_result: bool,
    pub requires_thinking_as_text: bool,
    pub requires_reasoning_content_on_assistant_messages: bool,
    pub thinking_format: Seq<char>,
    pub open_router_routing: Option<Routing>,
    pub vercel_gateway_routing: Option<GatewayRouting>,
    pub chat_template_kwargs: Option<Seq<(Seq<char>, TemplateValue)>>,
    pub chat_template_args: Option<Seq<(Seq<char>, TemplateValue)>>,
    pub zai_tool_stream: bool,
    pub supports_thinking_token_budget: bool,
    pub supports_strict_mode: bool,
    pub supports_openai_grammar_tools: bool,
    pub cache_control_format: Option<Seq<char>>,
    pub send_session_affinity_headers: bool,
    pub deferred_tools_mode: Option<Seq<char>>,
    pub session_affinity_format: Seq<char>,
    pub supports_long_cache_retention: bool,
}

/// What an optional list of strings holds.
pub open spec fn opt_texts(v: Option<Vec<String>>) -> Option<Seq<Seq<char>>> {
    match v {
        Some(v) => Some(texts(v@)),
        None => None,
    }
}

impl View for OpenRouterRouting {
    type V = Routing;

    open spec fn view(&self) -> Routing {
        Routing {
            allow_fallbacks: self.allow_fallbacks,
            require_parameters: self.require_parameters,
            data_collection: opt_text(self.data_collection),
            zdr: self.zdr,
            enforce_distillable_text: self.enforce_distillable_text,
            order: opt_texts(self.order),
            only: opt_texts(self.only),
            ignore: opt_texts(self.ignore),
            quantizations: opt_texts(self.quantizations),
        }
    }
}

impl View for VercelGatewayRouting {
    type V = GatewayRouting;

    open spec fn view(&self) -> GatewayRouting {
        GatewayRouting { only: opt_texts(self.only), order: opt_texts(self.order) }
    }
}

impl View for ChatTemplateKwargValue {
    type V = TemplateValue;

    open spec fn view(&self) -> TemplateValue {
        match *self {
            ChatTemplateKwargValue::Str(s) => TemplateValue::Str(s@),
            ChatTemplateKwargValue::Number(n) => TemplateValue::Number(n),
            ChatTemplateKwargValue::Bool(b) => TemplateValue::Bool(b),
            ChatTemplateKwargValue::Null => TemplateValue::Null,
            ChatTemplateKwargValue::Var { var, omit_when_off } => TemplateValue::Var {
                var: var@,
                omit_when_off,
            },
        }
    }
}

/// What a list of values for a chat template holds.
pub open spec fn template_values(v: Seq<(String, ChatTemplateKwargValue)>) -> Seq<
    (Seq<char>, TemplateValue),
> {
    Seq::new(v.len(), |i: int| (v[i].0@, v[i].1@))
}

pub open spec fn opt_template_values(v: Option<Vec<(String, ChatTemplateKwargValue)>>) -> Option<
    Seq<(Seq<char>, TemplateValue)>,
> {
    match v {
        Some(v) => Some(template_values(v@)),
        None => None,
    }
}

pub open spec fn opt_routing(r: Option<OpenRouterRouting>) -> Option<Routing> {
    match r {
        Some(r) => Some(r@),
        None => None,
    }
}

pub open spec fn opt_gateway(r: Option<VercelGatewayRouting>) -> Option<GatewayRouting> {
    match r {
        Some(r) => Some(r@),
        None => None,
    }
}

impl View for ResolvedOpenAICompletionsCompat {
    type V = Compat;

    open spec fn view(&self) -> Compat {
        Compat {
            supports_store: self.supports_store,
            supports_developer_role: self.supports_developer_role,
            supports_reasoning_effort: self.supports_reasoning_effort,
            supports_usage_in_streaming: self.supports_usage_in_streaming,
            supports_finish_reason: self.supports_finish_reason,
            max_tokens_field: self.max_tokens_field@,
            requires_tool_result_name: self.requires_tool_result_name,
            requires_assistant_after_tool_result: self.requires_assistant_after_tool_result,
            requires_thinking_as_text: self.requires_thinking_as_text,
            requires_reasoning_content_on_assistant_messages:
                self.requires_reasoning_content_on_assistant_messages,
            thinking_format: self.thinking_format@,
            open_router_routing: opt_routing(self.open_router_routing),
            vercel_gateway_routing: opt_gateway(self.vercel_gateway_routing),
            chat_template_kwargs: opt_template_values(self.chat_template_kwargs),
            chat_template_args: opt_template_values(self.chat_template_args),
            zai_tool_stream: self.zai_tool_stream,
            supports_thinking_token_budget: self.supports_thinking_token_budget,
            supports_strict_mode: self.supports_strict_mode,
            supports_openai_grammar_tools: self.supports_openai_grammar_tools,
            cache_control_format: opt_text(self.cache_control_format),
            send_session_affinity_headers: self.send_session_affinity_headers,
            deferred_tools_mode: opt_text(self.deferred_tools_mode),
            session_affinity_format: self.session_affinity_format@,
            supports_long_cache_retention: self.supports_long_cache_retention,
        }
    }
}

// ---------------------------------------------------------------------------
// Detection
// ---------------------------------------------------------------------------

pub open spec fn is_provider(model: Model, name: Seq<char>) -> bool {
    model.provider@ == name
}

pub open spec fn is_at(model: Model, part: Seq<char>) -> bool {
    contains_text(model.base_url@, part)
}

/// The families of endpoints that behave alike.
pub struct Families {
    pub zai: bool,
    pub together: bool,
    pub moonshot: bool,
    pub open_router: bool,
    pub cloudflare_workers: bool,
    pub cloudflare_gateway: bool,
    pub nvidia: bool,
    pub ant_ling: bool,
    pub deep_seek: bool,
    pub grok: bool,
    pub chutes: bool,
    pub non_standard: bool,
}

pub open spec fn families(model: Model) -> Families {
    let zai = is_provider(model, "zai"@) || is_provider(model, "zai-coding-cn"@) || is_at(
        model,
        "api.z.ai"@,
    ) || is_at(model, "open.bigmodel.cn"@);
    let together = is_provider(model, "together"@) || is_at(model, "api.together.ai"@) || is_at(
        model,
        "api.together.xyz"@,
    );
    let moonshot = is_provider(model, "moonshotai"@) || is_provider(model, "moonshotai-cn"@)
        || is_at(model, "api.moonshot."@);
    let open_router = is_provider(model, "openrouter"@) || is_at(model, "openrouter.ai"@);
    let cloudflare_workers = is_provider(model, "cloudflare-workers-ai"@) || is_at(
        model,
        "api.cloudflare.com"@,
    );
    let cloudflare_gateway = is_provider(model, "cloudflare-ai-gateway"@) || is_at(
        model,
        "gateway.ai.cloudflare.com"@,
    );
    let nvidia = is_provider(model, "nvidia"@) || is_at(model, "integrate.api.nvidia.com"@);
    let ant_ling = is_provider(model, "ant-ling"@) || is_at(model, "api.ant-ling.com"@);
    let grok = is_provider(model, "xai"@) || is_at(model, "api.x.ai"@);
    let chutes = is_at(model, "chutes.ai"@);
    Families {
        zai,
        together,
        moonshot,
        open_router,
        cloudflare_workers,
        cloudflare_gateway,
        nvidia,
        ant_ling,
        deep_seek: is_provider(model, "deepseek"@) || is_at(model, "deepseek.com"@),
        grok,
        chutes,
        non_standard: nvidia || is_provider(model, "cerebras"@) || is_at(model, "cerebras.ai"@)
            || grok || together || chutes || is_at(model, "deepseek.com"@) || zai || moonshot
            || is_provider(model, "opencode"@) || is_at(model, "opencode.ai"@) || cloudflare_workers
            || cloudflare_gateway || ant_ling,
    }
}

/// The settings of an endpoint as its provider and address suggest them.
pub open spec fn detected(model: Model) -> Compat {
    let f = families(model);
    let of_anthropic = "anthropic/"@.is_prefix_of(model.id@);
    let of_openai = "openai/"@.is_prefix_of(model.id@);
    Compat {
        supports_store: !f.non_standard,
        supports_developer_role: (f.open_router && (of_anthropic || of_openai)) || (!f.non_standard
            && !f.open_router),
        supports_reasoning_effort: !(f.grok || f.zai || f.moonshot || f.together
            || f.cloudflare_gateway || f.nvidia || f.ant_ling),
        supports_usage_in_streaming: true,
        supports_finish_reason: true,
        max_tokens_field: if f.chutes || f.deep_seek || f.moonshot || f.cloudflare_gateway
            || f.together || f.nvidia || f.ant_ling || f.zai {
            "max_tokens"@
        } else {
            "max_completion_tokens"@
        },
        requires_tool_result_name: false,
        requires_assistant_after_tool_result: false,
        requires_thinking_as_text: false,
        requires_reasoning_content_on_assistant_messages: f.deep_seek,
        thinking_format: if f.deep_seek {
            "deepseek"@
        } else if f.zai {
            "zai"@
        } else if f.together {
            "together"@
        } else if f.ant_ling {
            "ant-ling"@
        } else if f.open_router {
            "openrouter"@
        } else {
            "openai"@
        },
        open_router_routing: None,
        vercel_gateway_routing: None,
        chat_template_kwargs: None,
        chat_template_args: None,
        zai_tool_stream: false,
        supports_thinking_token_budget: false,
        supports_strict_mode: !(f.moonshot || f.together || f.cloudflare_gateway || f.nvidia),
        supports_openai_grammar_tools: false,
        cache_control_format: if is_provider(model, "openrouter"@) && of_anthropic {
            Some("anthropic"@)
        } else {
            None
        },
        send_session_affinity_headers: false,
        deferred_tools_mode: None,
        session_affinity_format: if f.open_router {
            "openrouter"@
        } else {
            "openai"@
        },
        supports_long_cache_retention: !(f.together || f.cloudflare_workers || f.cloudflare_gateway
            || f.nvidia || f.ant_ling),
    }
}

fn detect_compat(model: &Model) -> (r: ResolvedOpenAICompletionsCompat)
    ensures
        r@ == detected(*model),
{
    let provider = model.provider.as_str();
    let base_url = model.base_url.as_str();
    let is_zai = str_eq(provider, "zai") || str_eq(provider, "zai-coding-cn") || contains(
        base_url,
        "api.z.ai",
    ) || contains(base_url, "open.bigmodel.cn");
    let is_together = str_eq(provider, "together") || contains(base_url, "api.together.ai")
        || contains(base_url, "api.together.xyz");
    let is_moonshot = str_eq(provider, "moonshotai") || str_eq(provider, "moonshotai-cn")
        || contains(base_url, "api.moonshot.");
    let is_open_router = str_eq(provider, "openrouter") || contains(base_url, "openrouter.ai");
    let is_cloudflare_workers_ai = str_eq(provider, "cloudflare-workers-ai") || contains(
        base_url,
        "api.cloudflare.com",
    );
    let is_cloudflare_ai_gateway = str_eq(provider, "cloudflare-ai-gateway") || contains(
        base_url,
        "gateway.ai.cloudflare.com",
    );
    let is_nvidia = str_eq(provider, "nvidia") || contains(base_url, "integrate.api.nvidia.com");
    let is_ant_ling = str_eq(provider, "ant-ling") || contains(base_url, "api.ant-ling.com");
    let is_grok = str_eq(provider, "xai") || contains(base_url, "api.x.ai");
    let is_chutes = contains(base_url, "chutes.ai");
    let at_deep_seek = contains(base_url, "deepseek.com");
    let is_deep_seek = str_eq(provider, "deepseek") || at_deep_seek;
    let is_non_standard = is_nvidia || str_eq(provider, "cerebras") || contains(
        base_url,
        "cerebras.ai",
    ) || is_grok || is_together || is_chutes || at_deep_seek || is_zai || is_moonshot || str_eq(
        provider,
        "opencode",
    ) || contains(base_url, "opencode.ai") || is_cloudflare_workers_ai || is_cloudflare_ai_gateway
        || is_ant_ling;
    let use_max_tokens = is_chutes || is_deep_seek || is_moonshot || is_cloudflare_ai_gateway
        || is_together || is_nvidia || is_ant_ling || is_zai;
    let of_anthropic = starts_with(model.id.as_str(), "anthropic/");
    let of_openai = starts_with(model.id.as_str(), "openai/");
    ResolvedOpenAICompletionsCompat {
        supports_store: !is_non_standard,
        supports_developer_role: (is_open_router && (of_anthropic || of_openai)) || (
        !is_non_standard && !is_open_router),
        supports_reasoning_effort: !is_grok && !is_zai && !is_moonshot && !is_together
            && !is_cloudflare_ai_gateway && !is_nvidia && !is_ant_ling,
        supports_usage_in_streaming: true,
        supports_finish_reason: true,
        max_tokens_field: if use_max_tokens {
            "max_tokens".to_owned()
        } else {
            "max_completion_tokens".to_owned()
        },
        requires_tool_result_name: false,
        requires_assistant_after_tool_result: false,
        requires_thinking_as_text: false,
        requires_reasoning_content_on_assistant_messages: is_deep_seek,
        thinking_format: (if is_deep_seek {
            "deepseek"
        } else if is_zai {
            "zai"
        } else if is_together {
            "together"
        } else if is_ant_ling {
            "ant-ling"
        } else if is_open_router {
            "openrouter"
        } else {
            "openai"
        }).to_owned(),
        open_router_routing: None,
        vercel_gateway_routing: None,
        chat_template_kwargs: None,
        chat_template_args: None,
        zai_tool_stream: false,
        supports_thinking_token_budget: false,
        supports_strict_mode: !is_moonshot && !is_together && !is_cloudflare_ai_gateway
            && !is_nvidia,
        supports_openai_grammar_tools: false,
        cache_control_format: if str_eq(provider, "openrouter") && of_anthropic {
            Some("anthropic".to_owned())
        } else {
            None
        },
        send_session_affinity_headers: false,
        deferred_tools_mode: None,
        session_affinity_format: if is_open_router {
            "openrouter".to_owned()
        } else {
            "openai".to_owned()
        },
        supports_long_cache_retention: !(is_together || is_cloudflare_workers_ai
            || is_cloudflare_ai_gateway || is_nvidia || is_ant_ling),
    }
}

// ---------------------------------------------------------------------------
// Overrides
// ---------------------------------------------------------------------------

pub open spec fn flag(stated: Option<bool>, detected: bool) -> bool {
    match stated {
        Some(stated) => stated,
        None => detected,
    }
}

pub open spec fn word(stated: Option<String>, detected: Seq<char>) -> Seq<char> {
    match stated {
        Some(stated) => stated@,
        None => detected,
    }
}

pub open spec fn opt_word(stated: Option<String>, detected: Option<Seq<char>>) -> Option<
    Seq<char>,
> {
    match stated {
        Some(stated) => Some(stated@),
        None => detected,
    }
}

/// The settings of a model: what it states, and what is detected where it
/// states nothing.
pub open spec fn resolved(model: Model) -> Compat {
    let d = detected(model);
    match model.compat {
        Some(ModelCompat::OpenAiCompletions(c)) => Compat {
            supports_store: flag(c.supports_store, d.supports_store),
            supports_developer_role: flag(c.supports_developer_role, d.supports_developer_role),
            supports_reasoning_effort: flag(
                c.supports_reasoning_effort,
                d.supports_reasoning_effort,
            ),
            supports_usage_in_streaming: flag(
                c.supports_usage_in_streaming,
                d.supports_usage_in_streaming,
            ),
            supports_finish_reason: flag(c.supports_finish_reason, d.supports_finish_reason),
            max_tokens_field: word(c.max_tokens_field, d.max_tokens_field),
            requires_tool_result_name: flag(
                c.requires_tool_result_name,
                d.requires_tool_result_name,
            ),
            requires_assistant_after_tool_result: flag(
                c.requires_assistant_after_tool_result,
                d.requires_assistant_after_tool_result,
            ),
            requires_thinking_as_text: flag(
                c.requires_thinking_as_text,
                d.requires_thinking_as_text,
            ),
            requires_reasoning_content_on_assistant_messages: flag(
                c.requires_reasoning_content_on_assistant_messages,
                d.requires_reasoning_content_on_assistant_messages,
            ),
            thinking_format: word(c.thinking_format, d.thinking_format),
            open_router_routing: opt_routing(c.open_router_routing),
            vercel_gateway_routing: opt_gateway(c.vercel_gateway_routing),
            chat_template_kwargs: opt_template_values(c.chat_template_kwargs),
            chat_template_args: opt_template_values(c.chat_template_args),
            zai_tool_stream: flag(c.zai_tool_stream, d.zai_tool_stream),
            supports_thinking_token_budget: flag(
                c.supports_thinking_token_budget,
                d.supports_thinking_token_budget,
            ),
            supports_strict_mode: flag(c.supports_strict_mode, d.supports_strict_mode),
            supports_openai_grammar_tools: flag(
                c.supports_openai_grammar_tools,
                d.supports_openai_grammar_tools,
            ),
            cache_control_format: opt_word(c.cache_control_format, d.cache_control_format),
            send_session_affinity_headers: flag(
                c.send_session_affinity_headers,
                d.send_session_affinity_headers,
            ),
            deferred_tools_mode: opt_word(c.deferred_tools_mode, d.deferred_tools_mode),
            session_affinity_format: word(c.session_affinity_format, d.session_affinity_format),
            supports_long_cache_retention: flag(
                c.supports_long_cache_retention,
                d.supports_long_cache_retention,
            ),
        },
        _ => d,
    }
}

fn flag_or(stated: Option<bool>, detected: bool) -> (r: bool)
    ensures
        r == flag(stated, detected),
{
    match stated {
        Some(stated) => stated,
        None => detected,
    }
}

fn word_or(stated: &Option<String>, detected: String) -> (r: String)
    ensures
        r@ == word(*stated, detected@),
{
    match stated {
        Some(stated) => stated.clone(),
        None => detected,
    }
}

fn opt_word_or(stated: &Option<String>, detected: Option<String>) -> (r: Option<String>)
    ensures
        opt_text(r) == opt_word(*stated, opt_text(detected)),
{
    match stated {
        Some(stated) => Some(stated.clone()),
        None => detected,
    }
}

fn clone_opt_texts(v: &Option<Vec<String>>) -> (r: Option<Vec<String>>)
    ensures
        opt_texts(r) == opt_texts(*v),
{
    match v {
        Some(v) => Some(clone_texts(v)),
        None => None,
    }
}

fn clone_routing(routing: &Option<OpenRouterRouting>) -> (r: Option<OpenRouterRouting>)
    ensures
        opt_routing(r) == opt_routing(*routing),
{
    match routing {
        Some(routing) => Some(
            OpenRouterRouting {
                allow_fallbacks: routing.allow_fallbacks,
                require_parameters: routing.require_parameters,
                data_collection: clone_opt(&routing.data_collection),
                zdr: routing.zdr,
                enforce_distillable_text: routing.enforce_distillable_text,
                order: clone_opt_texts(&routing.order),
                only: clone_opt_texts(&routing.only),
                ignore: clone_opt_texts(&routing.ignore),
                quantizations: clone_opt_texts(&routing.quantizations),
            },
        ),
        None => None,
    }
}

fn clone_gateway(routing: &Option<VercelGatewayRouting>) -> (r: Option<VercelGatewayRouting>)
    ensures
        opt_gateway(r) == opt_gateway(*routing),
{
    match routing {
        Some(routing) => Some(
            VercelGatewayRouting {
                only: clone_opt_texts(&routing.only),
                order: clone_opt_texts(&routing.order),
            },
        ),
        None => None,
    }
}

fn clone_template_values(values: &Option<Vec<(String, ChatTemplateKwargValue)>>) -> (r: Option<
    Vec<(String, ChatTemplateKwargValue)>,
>)
    ensures
        opt_template_values(r) == opt_template_values(*values),
{
    let values = match values {
        Some(values) => values,
        None => {
            return None;
        },
    };
    let mut r: Vec<(String, ChatTemplateKwargValue)> = Vec::new();
    let mut i: usize = 0;
    while i < values.len()
        invariant
            i <= values@.len(),
            r@.len() == i,
            forall|j: int|
                0 <= j < i ==> r@[j].0@ == values@[j].0@ && r@[j].1@ == values@[j].1@,
        decreases values.len() - i,
    {
        let value = match &values[i].1 {
            ChatTemplateKwargValue::Str(s) => ChatTemplateKwargValue::Str(s.clone()),
            ChatTemplateKwargValue::Number(n) => ChatTemplateKwargValue::Number(*n),
            ChatTemplateKwargValue::Bool(b) => ChatTemplateKwargValue::Bool(*b),
            ChatTemplateKwargValue::Null => ChatTemplateKwargValue::Null,
            ChatTemplateKwargValue::Var { var, omit_when_off } => ChatTemplateKwargValue::Var {
                var: var.clone(),
                omit_when_off: *omit_when_off,
            },
        };
        r.push((values[i].0.clone(), value));
        i += 1;
    }
    proof {
        assert(template_values(r@) =~= template_values(values@));
    }
    Some(r)
}

/// The settings of a model: detected, then overridden by what the model states.
pub fn get_compat(model: &Model) -> (r: ResolvedOpenAICompletionsCompat)
    ensures
        r@ == resolved(*model),
{
    let d = detect_compat(model);
    let c = match &model.compat {
        Some(ModelCompat::OpenAiCompletions(c)) => c,
        _ => {
            return d;
        },
    };
    ResolvedOpenAICompletionsCompat {
        supports_store: flag_or(c.supports_store, d.supports_store),
        supports_developer_role: flag_or(c.supports_developer_role, d.supports_developer_role),
        supports_reasoning_effort: flag_or(
            c.supports_reasoning_effort,
            d.supports_reasoning_effort,
        ),
        supports_usage_in_streaming: flag_or(
            c.supports_usage_in_streaming,
            d.supports_usage_in_streaming,
        ),
        supports_finish_reason: flag_or(c.supports_finish_reason, d.supports_finish_reason),
        max_tokens_field: word_or(&c.max_tokens_field, d.max_tokens_field),
        requires_tool_result_name: flag_or(
            c.requires_tool_result_name,
            d.requires_tool_result_name,
        ),
        requires_assistant_after_tool_result: flag_or(
            c.requires_assistant_after_tool_result,
            d.requires_assistant_after_tool_result,
        ),
        requires_thinking_as_text: flag_or(
            c.requires_thinking_as_text,
            d.requires_thinking_as_text,
        ),
        requires_reasoning_content_on_assistant_messages: flag_or(
            c.requires_reasoning_content_on_assistant_messages,
            d.requires_reasoning_content_on_assistant_messages,
        ),
        thinking_format: word_or(&c.thinking_format, d.thinking_format),
        open_router_routing: clone_routing(&c.open_router_routing),
        vercel_gateway_routing: clone_gateway(&c.vercel_gateway_routing),
        chat_template_kwargs: clone_template_values(&c.chat_template_kwargs),
        chat_template_args: clone_template_values(&c.chat_template_args),
        zai_tool_stream: flag_or(c.zai_tool_stream, d.zai_tool_stream),
        supports_thinking_token_budget: flag_or(
            c.supports_thinking_token_budget,
            d.supports_thinking_token_budget,
        ),
        supports_strict_mode: flag_or(c.supports_strict_mode, d.supports_strict_mode),
        supports_openai_grammar_tools: flag_or(
            c.supports_openai_grammar_tools,
            d.supports_openai_grammar_tools,
        ),
        cache_control_format: opt_word_or(&c.cache_control_format, d.cache_control_format),
        send_session_affinity_headers: flag_or(
            c.send_session_affinity_headers,
            d.send_session_affinity_headers,
        ),
        deferred_tools_mode: opt_word_or(&c.deferred_tools_mode, d.deferred_tools_mode),
        session_affinity_format: word_or(&c.session_affinity_format, d.session_affinity_format),
        supports_long_cache_retention: flag_or(
            c.supports_long_cache_retention,
            d.supports_long_cache_retention,
        ),
    }
}

} // verus!
