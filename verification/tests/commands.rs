use onto_studio::commands::chat::{
    classify_mounted, check_image_payload, user_text_with_scope, ChunkKind, ContextImageInput, ConversationScope,
    DocRef, OntologyNote, SourceTables, TokenUsage, TurnState, MAX_ESTIMATED_BODY_BYTES,
};
use onto_studio::commands::conversation::{
    accept_generated_title, first_user_message, no_title_source,
};
use onto_studio::commands::error::AppError;
use onto_studio::commands::ingest::{
    throttle_passes, ProgressCounters, final_progress, folder_node_to_dto, ingest_job_id, mounted_doc_dto, reported_units,
    result_item, task_failure_message, IngestOutcome, IngestStage, JobSpec,
};
use onto_studio::commands::mcp::server_statuses;
use onto_studio::commands::skill::{skill_activation, SkillActivation};
use onto_studio::repo::ConversationSkillRow;
use onto_studio::commands::platform::platform_lib_rel;
use onto_studio::documents::MountedDoc;
use onto_studio::error::StoreError;
use onto_studio::folders::FolderNode;
use onto_studio::message::{MessageRole, MessageRow, MessageStatus};
use onto_studio::payload::OntologyCharter;
use onto_studio::timestamp::Timestamp;

fn image(bytes: usize) -> ContextImageInput {
    ContextImageInput { mime: "image/png".to_string(), data_b64: "A".repeat(bytes) }
}

fn empty_scope() -> ConversationScope {
    ConversationScope {
        sources: Vec::new(),
        folders: Vec::new(),
        skills: Vec::new(),
        documents: Vec::new(),
        ontologies: Vec::new(),
    }
}

fn msg(role: MessageRole, content: &str) -> MessageRow {
    MessageRow {
        id: "m".to_string(),
        conversation_id: "c".to_string(),
        role,
        status: MessageStatus::Complete,
        content: content.to_string(),
        reasoning: None,
        error: None,
        model: None,
        created_at: Timestamp(1),
        updated_at: Timestamp(1),
        prompt_tokens: None,
        completion_tokens: None,
        total_tokens: None,
    }
}

fn job() -> JobSpec {
    JobSpec {
        job_id: "ingest-0-abc".to_string(),
        raw: "/tmp/a.pdf".to_string(),
        file_name: "a.pdf".to_string(),
        file_size: Some(2048),
    }
}

#[test]
fn pdfium_resource_resolves_and_inits() {
    let rel = platform_lib_rel("windows", "x86_64").expect("windows x64 has a bundled PDFium");
    assert_eq!(rel, "pdfium/win-x64/pdfium.dll");
    let path = std::path::Path::new("resources").join(rel);
    if !path.exists() {
        println!("[skip] {} is not present; the library is not bundled here", path.display());
        return;
    }
}

#[test]
fn pdfium_library_per_target() {
    assert_eq!(platform_lib_rel("macos", "aarch64"), Some("pdfium/mac-arm64/libpdfium.dylib"));
    assert_eq!(platform_lib_rel("macos", "x86_64"), Some("pdfium/mac-x64/libpdfium.dylib"));
    assert_eq!(platform_lib_rel("linux", "x86_64"), Some("pdfium/linux-x64/libpdfium.so"));
    assert_eq!(platform_lib_rel("linux", "aarch64"), None);
    assert_eq!(platform_lib_rel("freebsd", "x86_64"), None);
}

#[test]
fn errors_display_their_kind() {
    assert_eq!(AppError::Ingest("坏文件".to_string()).message(), "ingest: 坏文件");
    assert_eq!(AppError::Provider("x".to_string()).message(), "provider: x");
    assert_eq!(AppError::SkillScanTimeout("t".to_string()).message(), "skill-scan-timeout: t");
    assert_eq!(AppError::Cancelled.message(), "cancelled");
    let e = AppError::from_store_error(&StoreError::NotFound("ontology x".to_string()));
    match e {
        AppError::Ontology(m) => assert!(m.contains("ontology x")),
        other => panic!("expected an ontology error, got {other:?}"),
    }
}

#[test]
fn small_image_payloads_pass() {
    assert!(check_image_payload(&Vec::new()).is_ok());
    assert!(check_image_payload(&vec![image(1000), image(2000)]).is_ok());
    assert!(check_image_payload(&vec![image(MAX_ESTIMATED_BODY_BYTES)]).is_ok());
}

#[test]
fn oversized_image_payloads_are_refused() {
    let imgs = vec![image(20 * 1024 * 1024), image(10 * 1024 * 1024 + 5)];
    match check_image_payload(&imgs) {
        Err(AppError::Provider(m)) => assert_eq!(
            m,
            "请求体过大（约 30 MiB，上限 28 MiB）。请减少附件数量、拆分对话或压缩图片后重试。"
        ),
        other => panic!("expected a provider error, got {other:?}"),
    }
    assert!(check_image_payload(&vec![image(MAX_ESTIMATED_BODY_BYTES + 1)]).is_err());
}

#[test]
fn an_empty_scope_leaves_the_message_alone() {
    assert_eq!(user_text_with_scope("你好", &empty_scope()), "你好");
}

#[test]
fn the_scope_note_lists_every_section_in_order() {
    let mut scope = empty_scope();
    scope.sources = vec![
        SourceTables { name: "mydb".to_string(), tables: vec!["a".to_string(), "b".to_string()] },
        SourceTables { name: "empty".to_string(), tables: Vec::new() },
    ];
    scope.folders = vec!["/曾国藩专题".to_string()];
    scope.skills = vec![DocRef { id: "s1".to_string(), name: "写作".to_string() }];
    scope.documents = vec![DocRef { id: "d1".to_string(), name: "家书.pdf".to_string() }];
    let charter = OntologyCharter {
        business_essence: "本质".to_string(),
        design_intent: String::new(),
        invariants: "约".repeat(250),
        ..OntologyCharter::default()
    };
    scope.ontologies = vec![
        OntologyNote { api_name: "retail".to_string(), charter: Some(charter) },
        OntologyNote { api_name: "bare".to_string(), charter: None },
    ];
    let text = user_text_with_scope("问题", &scope);
    let expected = format!(
        "问题\n\n<conversation-scope>\n以下是本会话激活的知识范围（`@xxx` token 指向这些资源）。用对应工具按需检索，不必全部读取：\n\
         \n[数据源] 可用 execute_sql 工具查询（表名用三段式 `source.schema.table`）：\n\
         - mydb：2 张表 — a, b\n\
         - empty（表清单待 list_data_sources 工具获取）\n\
         \n[文件夹] 可用 search_documents 工具在这些目录下检索文档：\n\
         - /曾国藩专题\n\
         \n[技能] 可用 read_document 工具按 id 读取技能全文（SKILL.md body）：\n\
         - id: s1, name: 写作\n\
         \n[挂载文档] 可用 read_document 工具按 id 读取全文：\n\
         - id: d1, name: 家书.pdf\n\
         \n[本体] 可用 describe_ontology 工具获取 OT 目录，describe_object_type 看单个 OT 详情，list_link_types/describe_link_type 看关系：\n\
         - retail\n  业务本质：本质\n  业务约束：{}…\n\
         - bare\n\
         </conversation-scope>",
        "约".repeat(200)
    );
    assert_eq!(text, expected);
}

#[test]
fn only_nonempty_sections_appear() {
    let mut scope = empty_scope();
    scope.folders = vec!["/A".to_string(), "/B".to_string()];
    let text = user_text_with_scope("q", &scope);
    assert!(text.contains("[文件夹]"));
    assert!(text.contains("- /A\n- /B\n"));
    assert!(!text.contains("[数据源]"));
    assert!(!text.contains("[本体]"));
    assert!(text.ends_with("</conversation-scope>"));
}

#[test]
fn a_turn_accumulates_its_stream() {
    let mut t = TurnState::new();
    t.absorb(ChunkKind::ReasoningDelta, "想", None);
    t.absorb(ChunkKind::TextDelta, "你", None);
    t.absorb(ChunkKind::Other, "tool", None);
    t.absorb(ChunkKind::TextDelta, "好", None);
    let usage = TokenUsage { input_tokens: 3, output_tokens: 2, total_tokens: 5 };
    t.absorb(ChunkKind::Usage, "", Some(usage));
    t.absorb(ChunkKind::Usage, "", None);
    let out = t.finish(false);
    assert_eq!(out.status, MessageStatus::Complete);
    assert_eq!(out.content, "你好");
    assert_eq!(out.reasoning.as_deref(), Some("想"));
    assert_eq!(out.error, None);
    assert_eq!(out.usage, Some(usage));
}

#[test]
fn an_error_chunk_fails_the_turn_unless_cancelled() {
    let mut t = TurnState::new();
    t.absorb(ChunkKind::TextDelta, "部分", None);
    t.absorb(ChunkKind::Error, "网关超时", None);
    let failed = t.finish(false);
    assert_eq!(failed.status, MessageStatus::Error);
    assert_eq!(failed.error.as_deref(), Some("网关超时"));
    assert_eq!(failed.content, "部分");
    assert_eq!(failed.reasoning, None);
    let cancelled = t.finish(true);
    assert_eq!(cancelled.status, MessageStatus::Cancelled);
    assert_eq!(cancelled.error, None);
    assert_eq!(cancelled.content, "部分");
}

#[test]
fn titles_come_from_the_first_user_message() {
    let msgs = vec![
        msg(MessageRole::System, "规则"),
        msg(MessageRole::User, ""),
        msg(MessageRole::Assistant, "答"),
        msg(MessageRole::User, "曾国藩是谁"),
        msg(MessageRole::User, "再问"),
    ];
    assert_eq!(first_user_message(&msgs), Some(3));
    assert_eq!(first_user_message(&vec![msg(MessageRole::Assistant, "答")]), None);
    assert_eq!(no_title_source().message(), "agent: 无可用的首条用户消息生成标题");
}

#[test]
fn generated_titles_are_trimmed_and_must_not_be_blank() {
    assert_eq!(accept_generated_title("  曾国藩研究 \n").unwrap(), "曾国藩研究");
    match accept_generated_title(" \n ") {
        Err(AppError::Agent(m)) => assert_eq!(m, "LLM 返回空标题"),
        other => panic!("expected an agent error, got {other:?}"),
    }
}

#[test]
fn mcp_statuses_follow_the_configuration() {
    let names = vec!["fs".to_string(), "web".to_string(), "db".to_string()];
    let errors = vec![
        ("web".to_string(), "timeout".to_string()),
        ("web".to_string(), "later".to_string()),
    ];
    let st = server_statuses(&names, &errors);
    assert_eq!(st.len(), 3);
    assert_eq!((st[0].name.as_str(), st[0].connected, st[0].error.clone()), ("fs", true, None));
    assert_eq!(
        (st[1].name.as_str(), st[1].connected, st[1].error.clone()),
        ("web", false, Some("timeout".to_string()))
    );
    assert!(st[2].connected);
    assert!(st.iter().all(|s| s.tool_count == 0));
}

#[test]
fn ingest_jobs_are_named_and_reported() {
    assert_eq!(ingest_job_id(3, "abc"), "ingest-3-abc");
    assert_eq!(reported_units(Some(7), 9), Some(7));
    assert_eq!(reported_units(None, 9), Some(9));
    assert_eq!(reported_units(None, 0), None);
    assert_eq!(task_failure_message("panic"), "解析任务异常退出: panic");
}

#[test]
fn finished_ingest_jobs_report_their_outcome() {
    let spec = job();
    let done = IngestOutcome::Done { format: "pdf".to_string(), char_count: 120, multimodal_count: 2 };
    let item = result_item(&spec, &done);
    assert_eq!((item.format.as_str(), item.char_count, item.multimodal_count), ("pdf", 120, 2));
    assert_eq!((item.path.as_str(), item.file_size), ("/tmp/a.pdf", Some(2048)));
    let p = final_progress(&spec, &done);
    assert_eq!((p.stage, p.char_count, p.error.clone()), (IngestStage::Done, 120, None));

    let item = result_item(&spec, &IngestOutcome::Cancelled);
    assert_eq!((item.format.as_str(), item.char_count), ("cancelled", 0));
    let p = final_progress(&spec, &IngestOutcome::Cancelled);
    assert_eq!((p.stage, p.error.as_deref()), (IngestStage::Cancelled, Some("已取消")));

    let failed = IngestOutcome::Failed { message: "坏文件".to_string() };
    assert_eq!(result_item(&spec, &failed).format, "error");
    let p = final_progress(&spec, &failed);
    assert_eq!((p.stage, p.error.as_deref()), (IngestStage::Error, Some("坏文件")));
    assert_eq!((p.phase, p.current, p.total), (None, None, None));
}

#[test]
fn job_progress_carries_the_job() {
    let spec = job();
    let p = spec.progress(IngestStage::Parsing, 0, None, Some("ocr".to_string()), Some(1), Some(4));
    assert_eq!((p.job_id.as_str(), p.file_name.as_str()), ("ingest-0-abc", "a.pdf"));
    assert_eq!((p.stage, p.phase.as_deref(), p.current, p.total), (IngestStage::Parsing, Some("ocr"), Some(1), Some(4)));
    assert_eq!(p.file_size, Some(2048));
}

#[test]
fn folder_trees_convert_node_by_node() {
    let tree = FolderNode {
        name: "A".to_string(),
        path: "/A".to_string(),
        children: vec![FolderNode {
            name: "B".to_string(),
            path: "/A/B".to_string(),
            children: Vec::new(),
        }],
    };
    let dto = folder_node_to_dto(&tree);
    assert_eq!((dto.name.as_str(), dto.path.as_str()), ("A", "/A"));
    assert_eq!(dto.children.len(), 1);
    assert_eq!(dto.children[0].path, "/A/B");
    assert!(dto.children[0].children.is_empty());
}

#[test]
fn mounted_documents_convert_field_by_field() {
    let d = MountedDoc {
        path: "/tmp/a.pdf".to_string(),
        name: "a.pdf".to_string(),
        format: "pdf".to_string(),
        char_count: 9,
        mounted_at: 77,
    };
    let dto = mounted_doc_dto(d);
    assert_eq!((dto.path.as_str(), dto.name.as_str(), dto.format.as_str()), ("/tmp/a.pdf", "a.pdf", "pdf"));
    assert_eq!((dto.char_count, dto.mounted_at), (9, 77));
}

fn conv_skill(name: &str, enabled: bool) -> ConversationSkillRow {
    ConversationSkillRow {
        conversation_id: "c1".to_string(),
        skill_name: name.to_string(),
        source: "imported".to_string(),
        enabled,
        activated_at: 0,
    }
}

#[test]
fn skills_merge_global_and_conversation_state() {
    let disabled = vec!["pdf".to_string()];
    let conv = vec![conv_skill("writer", true), conv_skill("pdf", false), conv_skill("writer", false)];
    assert_eq!(
        skill_activation(&"writer".to_string(), &disabled, &conv),
        SkillActivation { globally_disabled: false, conversation_enabled: Some(true) }
    );
    assert_eq!(
        skill_activation(&"pdf".to_string(), &disabled, &conv),
        SkillActivation { globally_disabled: true, conversation_enabled: Some(false) }
    );
    assert_eq!(
        skill_activation(&"other".to_string(), &disabled, &Vec::new()),
        SkillActivation { globally_disabled: false, conversation_enabled: None }
    );
}

#[test]
fn progress_is_throttled_and_remembered() {
    let spec = job();
    let mut c = ProgressCounters::new();
    // throttled: nothing sent, but the units are remembered
    assert!(c.on_progress(&spec, 3, Some(10), false, false).is_none());
    assert_eq!((c.current_unit, c.total_units), (3, 10));
    // characters are counted even when not sent
    assert!(c.on_chars(&spec, 500, false).is_none());
    let e = c.on_chars(&spec, 20, true).expect("sent");
    assert_eq!(e.char_count, 520);
    assert_eq!((e.current, e.total), (Some(3), Some(10)));
    assert_eq!(e.stage, IngestStage::Parsing);
    // a cancelled job reports no progress
    assert!(c.on_progress(&spec, 4, None, true, true).is_none());
    assert_eq!((c.current_unit, c.total_units), (4, 10));
    let e = c.on_progress(&spec, 5, None, false, true).expect("sent");
    assert_eq!((e.char_count, e.current, e.total), (520, Some(5), Some(10)));
    let p = c.on_phase(&spec, "ocr");
    assert_eq!((p.phase.as_deref(), p.char_count, p.current), (Some("ocr"), 520, Some(5)));
    assert_eq!(p.job_id, "ingest-0-abc");
}

#[test]
fn progress_before_any_units_has_none() {
    let spec = job();
    let c = ProgressCounters::new();
    let p = c.on_phase(&spec, "parse");
    assert_eq!((p.current, p.total, p.char_count), (None, None, 0));
    assert!(throttle_passes(60));
    assert!(throttle_passes(1000));
    assert!(!throttle_passes(59));
}

#[test]
fn mounted_documents_and_skills_are_told_apart() {
    let found = vec![
        ("d1".to_string(), "家书.pdf".to_string(), "pdf".to_string()),
        ("s1".to_string(), "写作".to_string(), "skill-md".to_string()),
        ("d2".to_string(), "年谱.docx".to_string(), "docx".to_string()),
    ];
    let (docs, skills) = classify_mounted(&found);
    let ids = |v: &Vec<DocRef>| v.iter().map(|d| (d.id.clone(), d.name.clone())).collect::<Vec<_>>();
    assert_eq!(
        ids(&docs),
        vec![("d1".to_string(), "家书.pdf".to_string()), ("d2".to_string(), "年谱.docx".to_string())]
    );
    assert_eq!(ids(&skills), vec![("s1".to_string(), "写作".to_string())]);
    let (docs, skills) = classify_mounted(&Vec::new());
    assert!(docs.is_empty() && skills.is_empty());
}
