//! The agents bundled with the runtime: each a Markdown prompt that opens with
//! a YAML frontmatter naming the agent, and the checks it must pass.

use vstd::prelude::*;
use crate::action::{owned, str_eq};
use crate::text::{
    chars_of, chars_start_with, find_chars, lead, lemma_find_from, occurs_at, starts_with,
    string_from_range, find_from,
};

verus! {

pub const STUDIO_DIRECTOR_AGENT: &'static str = "studio_director";
pub const GAME_DESIGNER_AGENT: &'static str = "game_designer";
pub const SPEC_WRITER_AGENT: &'static str = "spec_writer";
pub const SPEC_REVIEWER_AGENT: &'static str = "spec_reviewer";
pub const VISUAL_DESIGNER_AGENT: &'static str = "visual_designer";
pub const PROMPT_SMITH_AGENT: &'static str = "prompt_smith";
pub const IMAGE_T2I_AGENT: &'static str = "image_t2i";
pub const IMAGE_I2I_AGENT: &'static str = "image_i2i";
pub const VISION_REVIEWER_AGENT: &'static str = "vision_reviewer";
pub const MODEL3D_AGENT: &'static str = "model3d";
pub const VIDEO_GEN_AGENT: &'static str = "video_gen";
pub const REALTIME_SPEECH_AGENT: &'static str = "realtime_speech";

/// An agent shipped with the runtime: its code and its Markdown definition.
#[derive(Debug, Clone, PartialEq, Eq)]
pub struct BundledAgentDefinition {
    pub code: String,
    pub markdown: String,
}

/// The frontmatter and the body of an agent's Markdown, if it opens with a
/// frontmatter that is closed.
pub open spec fn markdown_parts(markdown: Seq<char>) -> Option<Option<(Seq<char>, Seq<char>)>> {
    if !starts_with(markdown, "---\n"@) {
        None
    } else {
        let source = markdown.skip(4);
        match find_from(source, "\n---\n"@, 0) {
            Some(i) => Some(Some((source.take(i), source.skip(i + 5)))),
            None => Some(None),
        }
    }
}

/// The sections every agent prompt must have.
pub open spec fn has_section(body: Seq<char>, section: Seq<char>) -> bool {
    exists|i: int| occurs_at(body, section, i)
}

/// A prompt body that opens with "你是" and has the fixed sections.
pub open spec fn body_ok(body: Seq<char>) -> bool {
    &&& starts_with(body.skip(lead(body, 0)), "你是"@)
    &&& has_section(body, "### 职责"@)
    &&& has_section(body, "### 输出格式"@)
    &&& has_section(body, "### 绝不可做"@)
}

fn contains_text(s: &[char], p: &str) -> (r: bool)
    ensures
        r == has_section(s@, p@),
{
    let pc = chars_of(p);
    let found = find_chars(s, pc.as_slice(), 0);
    proof {
        lemma_find_from(s@, pc@, 0);
    }
    found.is_some()
}

fn prompt_body_ok(body: &[char]) -> (r: bool)
    ensures
        r == body_ok(body@),
{
    let n = body.len();
    let mut i: usize = 0;
    while i < n && crate::text::is_whitespace(body[i])
        invariant
            i <= n,
            n == body@.len(),
            lead(body@, 0) == lead(body@, i as int),
        decreases n - i,
    {
        i = i + 1;
    }
    let rest = string_from_range(body, i, n);
    let rc = chars_of(rest.as_str());
    let opening = chars_of("你是");
    assert(body@.subrange(i as int, n as int) =~= body@.skip(i as int));
    chars_start_with(rc.as_slice(), opening.as_slice()) && contains_text(body, "### 职责")
        && contains_text(body, "### 输出格式") && contains_text(body, "### 绝不可做")
}

fn message(code: &str, tail: &str) -> (r: String)
    ensures
        r@ == code@ + tail@,
{
    let mut s = owned(code);
    s.append(tail);
    s
}

/// The Markdown definition of the first agent registered under `agent_code`.
pub fn bundled_agent_definition(agents: &Vec<BundledAgentDefinition>, agent_code: &str) -> (r:
    Option<String>)
    ensures
        match r {
            Some(md) => exists|i: int|
                0 <= i < agents@.len() && #[trigger] agents@[i].code@ == agent_code@
                    && md@ == agents@[i].markdown@ && forall|k: int|
                    0 <= k < i ==> agents@[k].code@ != agent_code@,
            None => forall|i: int| 0 <= i < agents@.len() ==> #[trigger] agents@[i].code@ != agent_code@,
        },
{
    for i in 0..agents.len()
        invariant
            forall|k: int| 0 <= k < i ==> #[trigger] agents@[k].code@ != agent_code@,
    {
        if str_eq(agents[i].code.as_str(), agent_code) {
            return Some(owned(agents[i].markdown.as_str()));
        }
    }
    None
}


// --- the full definition -------------------------------------------------------

/// What an agent's frontmatter declares.
#[derive(Debug, Clone, PartialEq, Eq)]
pub struct AgentFrontmatter {
    pub agent_code: String,
    pub capability: String,
    pub role: String,
    pub role_type: String,
    pub focusable: bool,
    pub aliases: Vec<String>,
    pub target_kinds: Vec<String>,
    pub stages: Vec<String>,
    pub max_turns: u32,
    pub conversational: bool,
    pub memory_scope: String,
    pub context_budget: u32,
    pub max_output_tokens: Option<u32>,
    pub output_contract: String,
    pub allow_tools: Vec<String>,
}

/// A bundled agent as the runtime uses it.
#[derive(Debug, Clone, PartialEq, Eq)]
pub struct AgentDefinition {
    pub agent_code: String,
    pub role: String,
    pub role_type: String,
    pub capability: String,
    pub focusable: bool,
    pub aliases: Vec<String>,
    pub target_kinds: Vec<String>,
    pub stages: Vec<String>,
    pub max_turns: u32,
    pub conversational: bool,
    pub memory_scope: String,
    pub context_budget: u32,
    pub max_output_tokens: Option<u32>,
    pub output_contract: String,
    pub allow_tools: Vec<String>,
    pub source_file: String,
    pub model_ids: Vec<String>,
}

/// The frontmatter text and the prompt body of an agent's Markdown; see
/// `markdown_parts`.
pub fn split_agent_markdown(code: &str, markdown: &str) -> (r: Result<(String, String), String>)
    ensures
        match markdown_parts(markdown@) {
            None => r matches Err(e) && e@ == code@ + " 缺少 YAML frontmatter"@,
            Some(None) => r matches Err(e) && e@ == code@ + " 的 YAML frontmatter 未闭合"@,
            Some(Some((f, b))) => r matches Ok((x, y)) && x@ == f && y@ == b,
        },
{
    let md = chars_of(markdown);
    let open = chars_of("---\n");
    if !chars_start_with(md.as_slice(), open.as_slice()) {
        return Err(message(code, " 缺少 YAML frontmatter"));
    }
    proof {
        reveal_strlit("---\n");
        reveal_strlit("\n---\n");
    }
    let n = md.len();
    let source = string_from_range(md.as_slice(), 4, n);
    let sc = chars_of(source.as_str());
    assert(md@.subrange(4, n as int) =~= md@.skip(4));
    let close = chars_of("\n---\n");
    let m = sc.len();
    match find_chars(sc.as_slice(), close.as_slice(), 0) {
        None => Err(message(code, " 的 YAML frontmatter 未闭合")),
        Some(i) => {
            proof {
                lemma_find_from(sc@, close@, 0);
            }
            let frontmatter = string_from_range(sc.as_slice(), 0, i);
            let body = string_from_range(sc.as_slice(), i + 5, m);
            assert(sc@.subrange(0, i as int) =~= sc@.take(i as int));
            assert(sc@.subrange(i + 5, m as int) =~= sc@.skip(i + 5));
            Ok((frontmatter, body))
        },
    }
}

/// The file an agent's definition is read from.
pub open spec fn source_file_of(code: Seq<char>) -> Seq<char> {
    "game/runtime/agents/"@ + code + ".md"@
}

/// Why an agent's frontmatter, as parsed (or the parser's message), and its
/// prompt body are refused, if they are: the frontmatter must parse and name
/// the agent's own code, and the prompt must have the fixed opening and
/// sections.
pub open spec fn frontmatter_refusal(code: Seq<char>, body: Seq<char>, frontmatter: Result<AgentFrontmatter, String>) -> Option<
    Seq<char>,
> {
    match frontmatter {
        Err(e) => Some(code + " 的 frontmatter 不合法："@ + e@),
        Ok(f) => if f.agent_code@ != code {
            Some(code + " 的 agent_code 与文件注册不一致"@)
        } else if !body_ok(body) {
            Some(code + " 的提示词正文缺少固定章节"@)
        } else {
            None
        },
    }
}

/// Whether `d` is the definition of agent `code` declared by `f`: every
/// declared field, the agent's source file, and no models yet.
pub open spec fn defined_by(d: AgentDefinition, code: Seq<char>, f: AgentFrontmatter) -> bool {
    &&& d.agent_code == f.agent_code && d.role == f.role && d.role_type == f.role_type
    &&& d.capability == f.capability && d.focusable == f.focusable && d.aliases == f.aliases
    &&& d.target_kinds == f.target_kinds && d.stages == f.stages && d.max_turns == f.max_turns
    &&& d.conversational == f.conversational && d.memory_scope == f.memory_scope
    &&& d.context_budget == f.context_budget && d.max_output_tokens == f.max_output_tokens
    &&& d.output_contract == f.output_contract && d.allow_tools == f.allow_tools
    &&& d.source_file@ == source_file_of(code) && d.model_ids@.len() == 0
}

/// Why bundled agent `a` is refused, given what its frontmatter text parsed
/// to: its Markdown must open with a closed frontmatter, which must pass
/// `frontmatter_refusal` with the prompt body.
pub open spec fn agent_refusal(a: BundledAgentDefinition, frontmatter: Result<AgentFrontmatter, String>) -> Option<Seq<char>> {
    match markdown_parts(a.markdown@) {
        None => Some(a.code@ + " 缺少 YAML frontmatter"@),
        Some(None) => Some(a.code@ + " 的 YAML frontmatter 未闭合"@),
        Some(Some((_f, b))) => frontmatter_refusal(a.code@, b, frontmatter),
    }
}

/// Which bundled agents are refused.
pub open spec fn refused_agents(agents: Seq<BundledAgentDefinition>, frontmatters: Seq<Result<AgentFrontmatter, String>>) -> Seq<bool> {
    Seq::new(agents.len(), |i: int| agent_refusal(agents[i], frontmatters[i]) is Some)
}

/// The definitions of the bundled agents, in order. `frontmatters[i]` is what
/// the frontmatter text of `agents[i]` (see `split_agent_markdown`) parsed to,
/// with every field typed and unknown fields refused, or the parser's message.
/// The first agent that is refused stops the reading with its message.
pub fn bundled_agent_definitions(
    agents: &Vec<BundledAgentDefinition>,
    frontmatters: Vec<Result<AgentFrontmatter, String>>,
) -> (r: Result<Vec<AgentDefinition>, String>)
    requires
        frontmatters@.len() == agents@.len(),
    ensures
        match crate::gates::first_true(refused_agents(agents@, frontmatters@)) {
            Some(i) => r matches Err(e) && Some(e@) == agent_refusal(agents@[i], frontmatters@[i]),
            None => r matches Ok(ds) && ds@.len() == agents@.len() && forall|i: int|
                0 <= i < agents@.len() ==> defined_by(#[trigger] ds@[i], agents@[i].code@, frontmatters@[i]->Ok_0),
        },
{
    let ghost flags = refused_agents(agents@, frontmatters@);
    let ghost fms = frontmatters@;
    assert(fms.skip(0) =~= fms);
    let mut out: Vec<AgentDefinition> = Vec::new();
    let mut rest = frontmatters;
    let mut i: usize = 0;
    while i < agents.len()
        invariant
            i <= agents@.len(),
            fms.len() == agents@.len(),
            fms == frontmatters@,
            flags == refused_agents(agents@, fms),
            rest@ == fms.skip(i as int),
            forall|k: int| 0 <= k < i ==> !flags[k],
            out@.len() == i,
            forall|k: int| 0 <= k < i ==> defined_by(#[trigger] out@[k], agents@[k].code@, fms[k]->Ok_0),
        decreases agents.len() - i,
    {
        assert(rest@[0] == fms[i as int]);
        let fm = rest.remove(0);
        assert(rest@ =~= fms.skip(i + 1));
        let a = &agents[i];
        let body = match split_agent_markdown(a.code.as_str(), a.markdown.as_str()) {
            Ok((_f, b)) => b,
            Err(e) => {
                proof {
                    assert(agent_refusal(agents@[i as int], fms[i as int]) == Some(e@));
                    assert(flags[i as int]);
                    crate::gates::lemma_first_true_unique(flags, i as int);
                }
                return Err(e);
            },
        };
        match agent_definition(a.code.as_str(), body.as_str(), fm) {
            Ok(d) => {
                out.push(d);
            },
            Err(e) => {
                proof {
                    assert(agent_refusal(agents@[i as int], fms[i as int]) == Some(e@));
                    assert(flags[i as int]);
                    crate::gates::lemma_first_true_unique(flags, i as int);
                }
                return Err(e);
            },
        }
        proof {
            assert(agent_refusal(agents@[i as int], fms[i as int]) is None);
        }
        i = i + 1;
    }
    proof {
        crate::gates::lemma_first_true(flags);
    }
    Ok(out)
}

/// Checks the bundled agents: each must read as a full definition; see
/// `bundled_agent_definitions`.
pub fn validate_bundled_agents(
    agents: &Vec<BundledAgentDefinition>,
    frontmatters: Vec<Result<AgentFrontmatter, String>>,
) -> (r: Result<(), String>)
    requires
        frontmatters@.len() == agents@.len(),
    ensures
        match crate::gates::first_true(refused_agents(agents@, frontmatters@)) {
            Some(i) => r matches Err(e) && Some(e@) == agent_refusal(agents@[i], frontmatters@[i]),
            None => r is Ok,
        },
{
    match bundled_agent_definitions(agents, frontmatters) {
        Ok(_) => Ok(()),
        Err(e) => Err(e),
    }
}

/// The definition of bundled agent `code` from its prompt `body` and its
/// frontmatter as parsed (or the parser's message): the frontmatter must parse
/// and name the agent's own code, and the prompt must have the fixed opening
/// and sections. The definition takes every declared field, the agent's
/// source file, and no models yet.
pub fn agent_definition(code: &str, body: &str, frontmatter: Result<AgentFrontmatter, String>) -> (r: Result<
    AgentDefinition,
    String,
>)
    ensures
        match frontmatter_refusal(code@, body@, frontmatter) {
            Some(m) => r matches Err(e) && e@ == m,
            None => r matches Ok(d) && defined_by(d, code@, frontmatter->Ok_0),
        },
{
    let f = match frontmatter {
        Err(e) => {
            let mut s = message(code, " 的 frontmatter 不合法：");
            s.append(e.as_str());
            return Err(s);
        },
        Ok(f) => f,
    };
    if !str_eq(f.agent_code.as_str(), code) {
        return Err(message(code, " 的 agent_code 与文件注册不一致"));
    }
    let bc = chars_of(body);
    if !prompt_body_ok(bc.as_slice()) {
        return Err(message(code, " 的提示词正文缺少固定章节"));
    }
    let mut source_file = owned("game/runtime/agents/");
    source_file.append(code);
    source_file.append(".md");
    Ok(
        AgentDefinition {
            agent_code: f.agent_code,
            role: f.role,
            role_type: f.role_type,
            capability: f.capability,
            focusable: f.focusable,
            aliases: f.aliases,
            target_kinds: f.target_kinds,
            stages: f.stages,
            max_turns: f.max_turns,
            conversational: f.conversational,
            memory_scope: f.memory_scope,
            context_budget: f.context_budget,
            max_output_tokens: f.max_output_tokens,
            output_contract: f.output_contract,
            allow_tools: f.allow_tools,
            source_file,
            model_ids: Vec::new(),
        },
    )
}

} // verus!
