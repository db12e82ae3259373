use game_runtime::agents::{
    bundled_agent_definition, bundled_agent_definitions, validate_bundled_agents,
    AgentFrontmatter, BundledAgentDefinition, GAME_DESIGNER_AGENT, IMAGE_I2I_AGENT, IMAGE_T2I_AGENT, MODEL3D_AGENT,
    PROMPT_SMITH_AGENT, REALTIME_SPEECH_AGENT, SPEC_REVIEWER_AGENT, SPEC_WRITER_AGENT,
    STUDIO_DIRECTOR_AGENT, VIDEO_GEN_AGENT, VISION_REVIEWER_AGENT, VISUAL_DESIGNER_AGENT,
};

fn markdown(code: &str) -> String {
    format!(
        "---\nagent_code: {code}\nrole: 角色\nfocusable: false\n---\n\n你是{code}。\n\n### 职责\n- 完成本职工作\n\n### 输出格式\n- 末尾输出 Action\n\n### 绝不可做\n- 越权\n"
    )
}

fn bundled() -> Vec<BundledAgentDefinition> {
    [
        STUDIO_DIRECTOR_AGENT,
        GAME_DESIGNER_AGENT,
        SPEC_WRITER_AGENT,
        SPEC_REVIEWER_AGENT,
        VISUAL_DESIGNER_AGENT,
        PROMPT_SMITH_AGENT,
        IMAGE_T2I_AGENT,
        IMAGE_I2I_AGENT,
        VISION_REVIEWER_AGENT,
        MODEL3D_AGENT,
        VIDEO_GEN_AGENT,
        REALTIME_SPEECH_AGENT,
    ]
    .iter()
    .map(|code| BundledAgentDefinition {
        code: code.to_string(),
        markdown: markdown(code),
    })
    .collect()
}

fn parsed(agents: &[BundledAgentDefinition]) -> Vec<Result<AgentFrontmatter, String>> {
    agents.iter().map(|a| Ok(frontmatter(&a.code))).collect()
}

#[test]
fn bundled_agents_are_valid() {
    let agents = bundled();
    validate_bundled_agents(&agents, parsed(&agents))
        .expect("bundled agents must validate at build time");
}

#[test]
fn agent_definitions_are_found_by_code() {
    let agents = bundled();
    assert_eq!(
        bundled_agent_definition(&agents, "spec_writer"),
        Some(markdown("spec_writer"))
    );
    assert_eq!(bundled_agent_definition(&agents, "unknown"), None);
}

fn definition(code: &str, markdown: &str) -> BundledAgentDefinition {
    BundledAgentDefinition {
        code: code.to_string(),
        markdown: markdown.to_string(),
    }
}

#[test]
fn each_definition_error_names_the_agent() {
    assert_eq!(
        check(definition("a", "no frontmatter")),
        Err("a 缺少 YAML frontmatter".to_string())
    );
    assert_eq!(
        check(definition("a", "---\nagent_code: a\n")),
        Err("a 的 YAML frontmatter 未闭合".to_string())
    );
    assert_eq!(
        check(definition("a", "---\nagent_code: b\n---\n你是a。")),
        Err("a 的 agent_code 与文件注册不一致".to_string())
    );
    assert_eq!(
        check(definition("a", "---\nrole: x\n---\n你是a。")),
        Err("a 的 frontmatter 不合法：missing field `agent_code`".to_string())
    );
    assert!(check(definition("a", "---\nagent_code: [\n---\n你是a。"))
        .unwrap_err()
        .starts_with("a 的 frontmatter 不合法："));
    assert_eq!(
        check(definition("a", "---\nagent_code: a\n---\n你是a。\n### 职责\n")),
        Err("a 的提示词正文缺少固定章节".to_string())
    );
    assert_eq!(
        check(definition(
            "a",
            "---\nagent_code: a\n---\n我是a。\n### 职责\n### 输出格式\n### 绝不可做\n"
        )),
        Err("a 的提示词正文缺少固定章节".to_string())
    );
    let mut agents = bundled();
    agents.insert(1, definition("broken", "x"));
    agents.push(definition("later", "y"));
    assert_eq!(
        validate_bundled_agents(&agents, parsed(&agents)),
        Err("broken 缺少 YAML frontmatter".to_string())
    );
    let agents = bundled();
    let mut frontmatters = parsed(&agents);
    frontmatters[2] = Err("unknown field `extra`".to_string());
    frontmatters[4] = Ok(frontmatter("other"));
    assert_eq!(
        bundled_agent_definitions(&agents, frontmatters),
        Err("spec_writer 的 frontmatter 不合法：unknown field `extra`".to_string())
    );
}

/// Reads one agent as the bundle reader does, with the frontmatter that its
/// text would parse to: `agent_code: x` alone names `x`, anything else is
/// refused with the parser's words.
fn check(a: BundledAgentDefinition) -> Result<(), String> {
    let (yaml, _) = game_runtime::agents::split_agent_markdown(&a.code, &a.markdown)?;
    let fm = match yaml.strip_prefix("agent_code: ") {
        Some(code) if !code.contains(['\n', '[']) => Ok(frontmatter(code)),
        _ if !yaml.contains("agent_code") => Err("missing field `agent_code`".to_string()),
        _ => Err("did not find expected node content".to_string()),
    };
    validate_bundled_agents(&vec![a], vec![fm])
}

fn frontmatter(code: &str) -> AgentFrontmatter {
    AgentFrontmatter {
        agent_code: code.to_string(),
        capability: "text_reasoning".to_string(),
        role: "角色".to_string(),
        role_type: "specialist".to_string(),
        focusable: true,
        aliases: vec!["别名".to_string()],
        target_kinds: vec!["character".to_string()],
        stages: vec!["spec".to_string()],
        max_turns: 3,
        conversational: true,
        memory_scope: "character".to_string(),
        context_budget: 1000,
        max_output_tokens: Some(2000),
        output_contract: "action".to_string(),
        allow_tools: Vec::new(),
    }
}

#[test]
fn an_agent_definition_takes_every_declared_field() {
    let markdown = "---\nagent_code: spec_writer\n---\n你是写手。\n### 职责\n### 输出格式\n### 绝不可做\n";
    let (yaml, body) = game_runtime::agents::split_agent_markdown("spec_writer", markdown).expect("parts");
    assert_eq!(yaml, "agent_code: spec_writer");
    let d = game_runtime::agents::agent_definition("spec_writer", &body, Ok(frontmatter("spec_writer")))
        .expect("definition");
    assert_eq!(d.source_file, "game/runtime/agents/spec_writer.md");
    assert_eq!(d.max_output_tokens, Some(2000));
    assert_eq!(d.stages, vec!["spec".to_string()]);
    assert!(d.model_ids.is_empty());
    assert_eq!(
        game_runtime::agents::agent_definition("spec_writer", &body, Ok(frontmatter("other"))),
        Err("spec_writer 的 agent_code 与文件注册不一致".to_string())
    );
    assert_eq!(
        game_runtime::agents::agent_definition("spec_writer", &body, Err("missing field `capability`".to_string())),
        Err("spec_writer 的 frontmatter 不合法：missing field `capability`".to_string())
    );
    assert_eq!(
        game_runtime::agents::agent_definition("spec_writer", "正文", Ok(frontmatter("spec_writer"))),
        Err("spec_writer 的提示词正文缺少固定章节".to_string())
    );
    assert_eq!(
        game_runtime::agents::split_agent_markdown("x", "no frontmatter"),
        Err("x 缺少 YAML frontmatter".to_string())
    );
}
