//! Sending a message: the size guard on attached images, the note that tells
//! the model which knowledge the conversation has in scope, and the state of
//! a streamed turn from its chunks to the stored outcome.

use vstd::prelude::*;
use crate::commands::error::{AppError, AppErrorV};
use crate::documents::{spec_truncate, truncate};
use crate::message::MessageStatus;
use crate::payload::OntologyCharter;
use crate::text::{concat2, decimal_string, join, join_strings, spec_decimal};
use crate::tokenizer::{utf8_byte_len, utf8_len};
use crate::ttl::strs;

verus! {

/// An image attached to a message.
#[derive(Debug, Clone)]
pub struct ContextImageInput {
    pub mime: String,
    pub data_b64: String,
}

/// Input of `send_message`.
#[derive(Debug, Clone)]
pub struct SendMessageInput {
    pub conversation_id: String,
    /// the text of the message
    pub content: String,
    /// documents referred to with `@`
    pub mounted_paths: Vec<String>,
    /// images sent to a vision model
    pub context_images: Vec<ContextImageInput>,
    /// whether the model reasons before answering
    pub enable_reasoning: bool,
}

// ════════════════════════════════════════════════════════════════
// Size guard
// ════════════════════════════════════════════════════════════════

/// The most bytes of attached images a request may carry (28 MiB).
pub const MAX_ESTIMATED_BODY_BYTES: usize = 29360128;

/// The bytes of the images' base64 texts.
pub open spec fn image_bytes(imgs: Seq<ContextImageInput>) -> nat
    decreases imgs.len(),
{
    if imgs.len() == 0 {
        0
    } else {
        image_bytes(imgs.drop_last()) + utf8_len(imgs.last().data_b64@)
    }
}

/// The refusal of a request that is too large, with its size in whole MiB.
pub open spec fn msg_body_too_large(mib: nat) -> Seq<char> {
    "请求体过大（约 "@ + spec_decimal(mib) + " MiB，上限 28 MiB）。请减少附件数量、拆分对话或压缩图片后重试。"@
}

proof fn lemma_image_bytes_prefix(imgs: Seq<ContextImageInput>, i: int)
    requires
        0 <= i <= imgs.len(),
    ensures
        image_bytes(imgs.take(i)) <= image_bytes(imgs),
    decreases imgs.len() - i,
{
    if i < imgs.len() {
        lemma_image_bytes_prefix(imgs, i + 1);
        assert(imgs.take(i + 1).drop_last() =~= imgs.take(i));
    } else {
        assert(imgs.take(i) =~= imgs);
    }
}

/// Refuses a message whose images together exceed 28 MiB.
pub fn check_image_payload(imgs: &Vec<ContextImageInput>) -> (r: Result<(), AppError>)
    requires
        image_bytes(imgs@) <= usize::MAX,
    ensures
        match r {
            Ok(()) => image_bytes(imgs@) <= MAX_ESTIMATED_BODY_BYTES,
            Err(e) => image_bytes(imgs@) > MAX_ESTIMATED_BODY_BYTES && e@ == AppErrorV::Provider(
                msg_body_too_large(image_bytes(imgs@) / 1048576),
            ),
        },
{
    let n = imgs.len();
    let mut total: u128 = 0;
    let mut i: usize = 0;
    while i < n
        invariant
            n == imgs@.len(),
            i <= n,
            total == image_bytes(imgs@.take(i as int)),
            image_bytes(imgs@) <= usize::MAX,
        decreases n - i,
    {
        let s = imgs[i].data_b64.as_str();
        proof {
            assert(imgs@.take(i + 1).drop_last() =~= imgs@.take(i as int));
            lemma_image_bytes_prefix(imgs@, i + 1);
        }
        let len = utf8_byte_len(s);
        total = total + len;
        i = i + 1;
    }
    assert(imgs@.take(n as int) =~= imgs@);
    if total > 29360128 {
        let mib = total / 1048576;
        let mut m = concat2("请求体过大（约 ", decimal_string(mib).as_str());
        m.append(" MiB，上限 28 MiB）。请减少附件数量、拆分对话或压缩图片后重试。");
        return Err(AppError::Provider(m));
    }
    Ok(())
}

// ════════════════════════════════════════════════════════════════
// Conversation scope note
// ════════════════════════════════════════════════════════════════

/// A data source in scope and the names of its tables.
pub struct SourceTables {
    pub name: String,
    pub tables: Vec<String>,
}

/// A document (or skill) in scope: its id and its name.
pub struct DocRef {
    pub id: String,
    pub name: String,
}

/// An ontology in scope, with its charter when it has one.
pub struct OntologyNote {
    pub api_name: String,
    pub charter: Option<OntologyCharter>,
}

/// What a conversation has in scope.
pub struct ConversationScope {
    pub sources: Vec<SourceTables>,
    pub folders: Vec<String>,
    pub skills: Vec<DocRef>,
    pub documents: Vec<DocRef>,
    pub ontologies: Vec<OntologyNote>,
}

/// A document found for a mounted path: (id, name, format).
pub type FoundDocV = (Seq<char>, Seq<char>, Seq<char>);

pub open spec fn found_v(found: Seq<(String, String, String)>) -> Seq<FoundDocV> {
    Seq::new(found.len(), |i: int| (found[i].0@, found[i].1@, found[i].2@))
}

pub open spec fn doc_refs_v(refs: Seq<DocRef>) -> Seq<(Seq<char>, Seq<char>)> {
    Seq::new(refs.len(), |i: int| (refs[i].id@, refs[i].name@))
}

/// The (id, name) of the found documents that are skills (`skill`) or that
/// are not, in order.
pub open spec fn refs_where(found: Seq<FoundDocV>, skill: bool) -> Seq<(Seq<char>, Seq<char>)>
    decreases found.len(),
{
    if found.len() == 0 {
        Seq::empty()
    } else {
        let rest = refs_where(found.drop_last(), skill);
        let x = found.last();
        if (x.2 == "skill-md"@) == skill {
            rest.push((x.0, x.1))
        } else {
            rest
        }
    }
}

/// Sorts the documents found for a message's mounted paths into mounted
/// documents and skills (format "skill-md"), keeping their order.
pub fn classify_mounted(found: &Vec<(String, String, String)>) -> (r: (Vec<DocRef>, Vec<DocRef>))
    ensures
        doc_refs_v(r.0@) == refs_where(found_v(found@), false),
        doc_refs_v(r.1@) == refs_where(found_v(found@), true),
{
    let ghost fv = found_v(found@);
    let mut docs: Vec<DocRef> = Vec::new();
    let mut skills: Vec<DocRef> = Vec::new();
    let n = found.len();
    let mut i: usize = 0;
    assert(doc_refs_v(docs@) =~= refs_where(fv.take(0), false));
    assert(doc_refs_v(skills@) =~= refs_where(fv.take(0), true));
    while i < n
        invariant
            n == found@.len(),
            fv == found_v(found@),
            i <= n,
            doc_refs_v(docs@) == refs_where(fv.take(i as int), false),
            doc_refs_v(skills@) == refs_where(fv.take(i as int), true),
        decreases n - i,
    {
        let ghost d0 = doc_refs_v(docs@);
        let ghost s0 = doc_refs_v(skills@);
        assert(fv.take(i + 1).drop_last() =~= fv.take(i as int));
        assert(fv.take(i + 1).last() == fv[i as int]);
        let (id, name, format) = &found[i];
        let r = DocRef { id: id.clone(), name: name.clone() };
        if crate::text::str_eq(format.as_str(), "skill-md") {
            skills.push(r);
            assert(doc_refs_v(skills@) =~= s0.push((fv[i as int].0, fv[i as int].1)));
            assert(doc_refs_v(docs@) =~= d0);
        } else {
            docs.push(r);
            assert(doc_refs_v(docs@) =~= d0.push((fv[i as int].0, fv[i as int].1)));
            assert(doc_refs_v(skills@) =~= s0);
        }
        i = i + 1;
    }
    assert(fv.take(n as int) =~= fv);
    (docs, skills)
}

/// The lines that `f` gives for the items, in order.
pub open spec fn lines<A>(items: Seq<A>, f: spec_fn(A) -> Seq<char>) -> Seq<char>
    decreases items.len(),
{
    if items.len() == 0 {
        Seq::empty()
    } else {
        lines(items.drop_last(), f) + f(items.last())
    }
}

pub open spec fn source_line(s: SourceTables) -> Seq<char> {
    if s.tables@.len() == 0 {
        "- "@ + s.name@ + "（表清单待 list_data_sources 工具获取）\n"@
    } else {
        "- "@ + s.name@ + "："@ + spec_decimal(s.tables@.len()) + " 张表 — "@ + join(
            strs(s.tables@),
            ", "@,
        ) + "\n"@
    }
}

pub open spec fn source_line_fn() -> spec_fn(SourceTables) -> Seq<char> {
    |s: SourceTables| source_line(s)
}

pub open spec fn folder_line_fn() -> spec_fn(String) -> Seq<char> {
    |f: String| "- "@ + f@ + "\n"@
}

pub open spec fn doc_line_fn() -> spec_fn(DocRef) -> Seq<char> {
    |d: DocRef| "- id: "@ + d.id@ + ", name: "@ + d.name@ + "\n"@
}

/// A charter line, when its text is not empty.
pub open spec fn charter_line(label: Seq<char>, text: Seq<char>) -> Seq<char> {
    if text.len() == 0 {
        Seq::empty()
    } else {
        label + text + "\n"@
    }
}

/// An ontology's line, followed by its business essence, design intent and
/// (cut to 200 characters) its constraints when its charter states them.
pub open spec fn ontology_lines(o: OntologyNote) -> Seq<char> {
    "- "@ + o.api_name@ + "\n"@ + match o.charter {
        Some(c) => charter_line("  业务本质："@, c.business_essence@) + charter_line(
            "  设计意图："@,
            c.design_intent@,
        ) + charter_line("  业务约束："@, spec_truncate(c.invariants@, 200)),
        None => Seq::empty(),
    }
}

pub open spec fn ontology_lines_fn() -> spec_fn(OntologyNote) -> Seq<char> {
    |o: OntologyNote| ontology_lines(o)
}

/// A section: its heading and lines, or nothing when it has no items.
pub open spec fn section(nonempty: bool, heading: Seq<char>, body: Seq<char>) -> Seq<char> {
    if nonempty {
        heading + body
    } else {
        Seq::empty()
    }
}

pub open spec fn scope_is_empty(s: ConversationScope) -> bool {
    s.sources@.len() == 0 && s.folders@.len() == 0 && s.skills@.len() == 0 && s.documents@.len()
        == 0 && s.ontologies@.len() == 0
}

pub open spec fn heading_sources() -> Seq<char> {
    "\n[数据源] 可用 execute_sql 工具查询（表名用三段式 `source.schema.table`）：\n"@
}

pub open spec fn heading_folders() -> Seq<char> {
    "\n[文件夹] 可用 search_documents 工具在这些目录下检索文档：\n"@
}

pub open spec fn heading_skills() -> Seq<char> {
    "\n[技能] 可用 read_document 工具按 id 读取技能全文（SKILL.md body）：\n"@
}

pub open spec fn heading_documents() -> Seq<char> {
    "\n[挂载文档] 可用 read_document 工具按 id 读取全文：\n"@
}

pub open spec fn heading_ontologies() -> Seq<char> {
    "\n[本体] 可用 describe_ontology 工具获取 OT 目录，describe_object_type 看单个 OT 详情，list_link_types/describe_link_type 看关系：\n"@
}

pub open spec fn scope_intro() -> Seq<char> {
    "\n\n<conversation-scope>\n以下是本会话激活的知识范围（`@xxx` token 指向这些资源）。用对应工具按需检索，不必全部读取：\n"@
}

/// The text sent for a message: the message itself, followed, when the
/// conversation has anything in scope, by a `<conversation-scope>` note
/// listing data sources (with tables), folders, skills, mounted documents and
/// ontologies (with their charter), in that order, each under its heading.
pub open spec fn spec_user_text(content: Seq<char>, s: ConversationScope) -> Seq<char> {
    if scope_is_empty(s) {
        content
    } else {
        content + scope_intro() + section(
            s.sources@.len() > 0,
            heading_sources(),
            lines(s.sources@, source_line_fn()),
        ) + section(s.folders@.len() > 0, heading_folders(), lines(s.folders@, folder_line_fn()))
            + section(s.skills@.len() > 0, heading_skills(), lines(s.skills@, doc_line_fn()))
            + section(
            s.documents@.len() > 0,
            heading_documents(),
            lines(s.documents@, doc_line_fn()),
        ) + section(
            s.ontologies@.len() > 0,
            heading_ontologies(),
            lines(s.ontologies@, ontology_lines_fn()),
        ) + "</conversation-scope>"@
    }
}

proof fn lemma_lines_step<A>(items: Seq<A>, f: spec_fn(A) -> Seq<char>, i: int)
    requires
        0 <= i < items.len(),
    ensures
        lines(items.take(i + 1), f) == lines(items.take(i), f) + f(items[i]),
{
    assert(items.take(i + 1).drop_last() =~= items.take(i));
    assert(items.take(i + 1).last() == items[i]);
}

proof fn lemma_take_all<A>(s: Seq<A>)
    ensures
        s.take(s.len() as int) == s,
{
    assert(s.take(s.len() as int) =~= s);
}

fn append_source_lines(out: &mut String, items: &Vec<SourceTables>)
    ensures
        final(out)@ == old(out)@ + lines(items@, source_line_fn()),
{
    let ghost start = out@;
    let n = items.len();
    let mut i: usize = 0;
    assert(items@.take(0) =~= Seq::<SourceTables>::empty());
    assert(start + Seq::<char>::empty() =~= start);
    while i < n
        invariant
            n == items@.len(),
            i <= n,
            out@ == start + lines(items@.take(i as int), source_line_fn()),
        decreases n - i,
    {
        let s = &items[i];
        proof {
            lemma_lines_step(items@, source_line_fn(), i as int);
        }
        let ghost before = out@;
        out.append("- ");
        out.append(s.name.as_str());
        if s.tables.len() == 0 {
            out.append("（表清单待 list_data_sources 工具获取）\n");
        } else {
            out.append("：");
            let count = decimal_string(s.tables.len() as u128);
            out.append(count.as_str());
            out.append(" 张表 — ");
            let joined = join_strings(&s.tables, ", ");
            out.append(joined.as_str());
            out.append("\n");
        }
        assert(out@ =~= before + source_line(*s));
        i = i + 1;
    }
    proof {
        lemma_take_all(items@);
    }
}

fn append_folder_lines(out: &mut String, items: &Vec<String>)
    ensures
        final(out)@ == old(out)@ + lines(items@, folder_line_fn()),
{
    let ghost start = out@;
    let n = items.len();
    let mut i: usize = 0;
    assert(items@.take(0) =~= Seq::<String>::empty());
    assert(start + Seq::<char>::empty() =~= start);
    while i < n
        invariant
            n == items@.len(),
            i <= n,
            out@ == start + lines(items@.take(i as int), folder_line_fn()),
        decreases n - i,
    {
        proof {
            lemma_lines_step(items@, folder_line_fn(), i as int);
        }
        let ghost before = out@;
        out.append("- ");
        out.append(items[i].as_str());
        out.append("\n");
        assert(out@ =~= before + folder_line_fn()(items@[i as int]));
        i = i + 1;
    }
    proof {
        lemma_take_all(items@);
    }
}

fn append_doc_lines(out: &mut String, items: &Vec<DocRef>)
    ensures
        final(out)@ == old(out)@ + lines(items@, doc_line_fn()),
{
    let ghost start = out@;
    let n = items.len();
    let mut i: usize = 0;
    assert(items@.take(0) =~= Seq::<DocRef>::empty());
    assert(start + Seq::<char>::empty() =~= start);
    while i < n
        invariant
            n == items@.len(),
            i <= n,
            out@ == start + lines(items@.take(i as int), doc_line_fn()),
        decreases n - i,
    {
        proof {
            lemma_lines_step(items@, doc_line_fn(), i as int);
        }
        let ghost before = out@;
        out.append("- id: ");
        out.append(items[i].id.as_str());
        out.append(", name: ");
        out.append(items[i].name.as_str());
        out.append("\n");
        assert(out@ =~= before + doc_line_fn()(items@[i as int]));
        i = i + 1;
    }
    proof {
        lemma_take_all(items@);
    }
}

fn append_charter_line(out: &mut String, label: &str, text: &str)
    ensures
        final(out)@ == old(out)@ + charter_line(label@, text@),
{
    if text.is_empty() {
        assert(old(out)@ + Seq::<char>::empty() =~= old(out)@);
    } else {
        out.append(label);
        out.append(text);
        out.append("\n");
        assert(out@ =~= old(out)@ + (label@ + text@ + "\n"@));
    }
}

fn append_ontology_lines(out: &mut String, items: &Vec<OntologyNote>)
    ensures
        final(out)@ == old(out)@ + lines(items@, ontology_lines_fn()),
{
    let ghost start = out@;
    let n = items.len();
    let mut i: usize = 0;
    assert(items@.take(0) =~= Seq::<OntologyNote>::empty());
    assert(start + Seq::<char>::empty() =~= start);
    while i < n
        invariant
            n == items@.len(),
            i <= n,
            out@ == start + lines(items@.take(i as int), ontology_lines_fn()),
        decreases n - i,
    {
        let o = &items[i];
        proof {
            lemma_lines_step(items@, ontology_lines_fn(), i as int);
        }
        let ghost before = out@;
        out.append("- ");
        out.append(o.api_name.as_str());
        out.append("\n");
        let ghost head = out@;
        match &o.charter {
            Some(c) => {
                append_charter_line(out, "  业务本质：", c.business_essence.as_str());
                append_charter_line(out, "  设计意图：", c.design_intent.as_str());
                let inv = truncate(c.invariants.as_str(), 200);
                proof {
                    if c.invariants@.len() == 0 {
                        assert(spec_truncate(c.invariants@, 200) == c.invariants@);
                    }
                }
                append_charter_line(out, "  业务约束：", inv.as_str());
                assert(out@ =~= head + (charter_line("  业务本质："@, c.business_essence@)
                    + charter_line("  设计意图："@, c.design_intent@) + charter_line(
                    "  业务约束："@,
                    spec_truncate(c.invariants@, 200),
                )));
            },
            None => {
                assert(head + Seq::<char>::empty() =~= head);
            },
        }
        assert(out@ =~= before + ontology_lines(*o));
        i = i + 1;
    }
    proof {
        lemma_take_all(items@);
    }
}

/// The text sent to the model for a message and its conversation's scope.
#[verifier::spinoff_prover]
#[verifier::rlimit(60)]
pub fn user_text_with_scope(content: &str, scope: &ConversationScope) -> (r: String)
    ensures
        r@ == spec_user_text(content@, *scope),
{
    let empty = scope.sources.len() == 0 && scope.folders.len() == 0 && scope.skills.len() == 0
        && scope.documents.len() == 0 && scope.ontologies.len() == 0;
    if empty {
        return content.to_owned();
    }
    let mut buf = content.to_owned();
    buf.append(
        "\n\n<conversation-scope>\n以下是本会话激活的知识范围（`@xxx` token 指向这些资源）。用对应工具按需检索，不必全部读取：\n",
    );
    let ghost p0 = buf@;
    if scope.sources.len() > 0 {
        buf.append("\n[数据源] 可用 execute_sql 工具查询（表名用三段式 `source.schema.table`）：\n");
        append_source_lines(&mut buf, &scope.sources);
    }
    let ghost p1 = buf@;
    if scope.folders.len() > 0 {
        buf.append("\n[文件夹] 可用 search_documents 工具在这些目录下检索文档：\n");
        append_folder_lines(&mut buf, &scope.folders);
    }
    let ghost p2 = buf@;
    if scope.skills.len() > 0 {
        buf.append("\n[技能] 可用 read_document 工具按 id 读取技能全文（SKILL.md body）：\n");
        append_doc_lines(&mut buf, &scope.skills);
    }
    let ghost p3 = buf@;
    if scope.documents.len() > 0 {
        buf.append("\n[挂载文档] 可用 read_document 工具按 id 读取全文：\n");
        append_doc_lines(&mut buf, &scope.documents);
    }
    let ghost p4 = buf@;
    if scope.ontologies.len() > 0 {
        buf.append(
            "\n[本体] 可用 describe_ontology 工具获取 OT 目录，describe_object_type 看单个 OT 详情，list_link_types/describe_link_type 看关系：\n",
        );
        append_ontology_lines(&mut buf, &scope.ontologies);
    }
    let ghost p5 = buf@;
    buf.append("</conversation-scope>");
    proof {
        let s = *scope;
        assert(p1 =~= p0 + section(
            s.sources@.len() > 0,
            heading_sources(),
            lines(s.sources@, source_line_fn()),
        ));
        assert(p2 =~= p1 + section(
            s.folders@.len() > 0,
            heading_folders(),
            lines(s.folders@, folder_line_fn()),
        ));
        assert(p3 =~= p2 + section(
            s.skills@.len() > 0,
            heading_skills(),
            lines(s.skills@, doc_line_fn()),
        ));
        assert(p4 =~= p3 + section(
            s.documents@.len() > 0,
            heading_documents(),
            lines(s.documents@, doc_line_fn()),
        ));
        assert(p5 =~= p4 + section(
            s.ontologies@.len() > 0,
            heading_ontologies(),
            lines(s.ontologies@, ontology_lines_fn()),
        ));
        assert(buf@ =~= spec_user_text(content@, s));
    }
    buf
}

// ════════════════════════════════════════════════════════════════
// A streamed turn
// ════════════════════════════════════════════════════════════════

/// What a chunk of the model's stream carries.
#[derive(Debug, Clone, Copy, PartialEq, Eq, Structural)]
pub enum ChunkKind {
    /// a piece of the answer
    TextDelta,
    /// a piece of the reasoning
    ReasoningDelta,
    /// the token usage the provider reports
    Usage,
    /// the stream failed; the text says why
    Error,
    /// anything else (tool calls, markers): shown, not stored
    Other,
}

/// Token counts reported by the provider.
#[derive(Debug, Clone, Copy, PartialEq, Eq, Structural)]
pub struct TokenUsage {
    pub input_tokens: u64,
    pub output_tokens: u64,
    pub total_tokens: u64,
}

/// What a turn has gathered from its stream so far.
pub struct TurnState {
    pub content: String,
    pub reasoning: String,
    pub last_usage: Option<TokenUsage>,
    pub errored: Option<String>,
}

/// The value of a [`TurnState`].
pub struct TurnV {
    pub content: Seq<char>,
    pub reasoning: Seq<char>,
    pub last_usage: Option<TokenUsage>,
    pub errored: Option<Seq<char>>,
}

pub open spec fn turn_v(t: TurnState) -> TurnV {
    TurnV {
        content: t.content@,
        reasoning: t.reasoning@,
        last_usage: t.last_usage,
        errored: match t.errored {
            Some(e) => Some(e@),
            None => None,
        },
    }
}

/// A chunk of the stream as a value.
pub type ChunkV = (ChunkKind, Seq<char>, Option<TokenUsage>);

/// The effect of one chunk: answer text and reasoning text are appended to
/// their own buffers, a reported usage replaces the last one, an error is
/// remembered (the last one wins); other chunks change nothing.
pub open spec fn turn_step(t: TurnV, c: ChunkV) -> TurnV {
    let (kind, text, usage) = c;
    TurnV {
        content: if kind == ChunkKind::TextDelta {
            t.content + text
        } else {
            t.content
        },
        reasoning: if kind == ChunkKind::ReasoningDelta {
            t.reasoning + text
        } else {
            t.reasoning
        },
        last_usage: if kind == ChunkKind::Usage && usage is Some {
            usage
        } else {
            t.last_usage
        },
        errored: if kind == ChunkKind::Error {
            Some(text)
        } else {
            t.errored
        },
    }
}

/// The state after a sequence of chunks.
pub open spec fn turn_run(t: TurnV, cs: Seq<ChunkV>) -> TurnV
    decreases cs.len(),
{
    if cs.len() == 0 {
        t
    } else {
        turn_step(turn_run(t, cs.drop_last()), cs.last())
    }
}

/// The texts of the chunks of one kind, joined in order.
pub open spec fn texts_of(cs: Seq<ChunkV>, kind: ChunkKind) -> Seq<char>
    decreases cs.len(),
{
    if cs.len() == 0 {
        Seq::empty()
    } else {
        texts_of(cs.drop_last(), kind) + if cs.last().0 == kind {
            cs.last().1
        } else {
            Seq::empty()
        }
    }
}

pub open spec fn empty_turn() -> TurnV {
    TurnV { content: Seq::empty(), reasoning: Seq::empty(), last_usage: None, errored: None }
}

impl TurnState {
    /// A turn that has received nothing.
    pub fn new() -> (r: TurnState)
        ensures
            turn_v(r) == empty_turn(),
    {
        TurnState { content: String::new(), reasoning: String::new(), last_usage: None, errored: None }
    }

    /// Takes one chunk of the stream into account.
    pub fn absorb(&mut self, kind: ChunkKind, text: &str, usage: Option<TokenUsage>)
        ensures
            turn_v(*final(self)) == turn_step(turn_v(*old(self)), (kind, text@, usage)),
    {
        match kind {
            ChunkKind::TextDelta => self.content.append(text),
            ChunkKind::ReasoningDelta => self.reasoning.append(text),
            ChunkKind::Usage => {
                if usage.is_some() {
                    self.last_usage = usage;
                }
            },
            ChunkKind::Error => {
                self.errored = Some(text.to_owned());
            },
            ChunkKind::Other => {},
        }
    }

    /// How the turn is stored once the stream is over: cancelled when the
    /// user stopped it (what was produced is kept), else an error when the
    /// stream reported one, else complete; the reasoning only when there is
    /// some.
    pub fn finish(&self, cancelled: bool) -> (r: TurnOutcome)
        ensures
            r.status == (if cancelled {
                MessageStatus::Cancelled
            } else if self.errored is Some {
                MessageStatus::Error
            } else {
                MessageStatus::Complete
            }),
            r.error == (if cancelled {
                None
            } else {
                self.errored
            }),
            r.content@ == self.content@,
            match r.reasoning {
                Some(x) => x@ == self.reasoning@ && self.reasoning@.len() > 0,
                None => self.reasoning@.len() == 0,
            },
            r.usage == self.last_usage,
    {
        let reasoning = if self.reasoning.as_str().is_empty() {
            None
        } else {
            Some(self.reasoning.clone())
        };
        let (status, error) = if cancelled {
            (MessageStatus::Cancelled, None)
        } else {
            match &self.errored {
                Some(e) => (MessageStatus::Error, Some(e.clone())),
                None => (MessageStatus::Complete, None),
            }
        };
        TurnOutcome { status, error, content: self.content.clone(), reasoning, usage: self.last_usage }
    }
}

/// How a turn's assistant message is stored.
pub struct TurnOutcome {
    pub status: MessageStatus,
    pub error: Option<String>,
    pub content: String,
    pub reasoning: Option<String>,
    pub usage: Option<TokenUsage>,
}

/// The stored answer is the answer pieces of the stream joined in order, and
/// the stored reasoning the reasoning pieces joined in order, whatever else
/// the stream carried.
pub proof fn law_turn_accumulates_in_order(cs: Seq<ChunkV>)
    ensures
        turn_run(empty_turn(), cs).content == texts_of(cs, ChunkKind::TextDelta),
        turn_run(empty_turn(), cs).reasoning == texts_of(cs, ChunkKind::ReasoningDelta),
    decreases cs.len(),
{
    if cs.len() > 0 {
        law_turn_accumulates_in_order(cs.drop_last());
        let prev = turn_run(empty_turn(), cs.drop_last());
        assert(prev.content + Seq::<char>::empty() =~= prev.content);
        assert(prev.reasoning + Seq::<char>::empty() =~= prev.reasoning);
    }
}

/// A turn is an error exactly when some chunk of its stream was an error
/// (unless the user cancelled it).
pub proof fn law_turn_error_iff_error_chunk(cs: Seq<ChunkV>)
    ensures
        turn_run(empty_turn(), cs).errored is Some <==> exists|i: int|
            0 <= i < cs.len() && (#[trigger] cs[i]).0 == ChunkKind::Error,
    decreases cs.len(),
{
    if cs.len() > 0 {
        law_turn_error_iff_error_chunk(cs.drop_last());
        let p = cs.drop_last();
        if exists|i: int| 0 <= i < p.len() && (#[trigger] p[i]).0 == ChunkKind::Error {
            let i = choose|i: int| 0 <= i < p.len() && (#[trigger] p[i]).0 == ChunkKind::Error;
            assert(cs[i] == p[i]);
        }
        if exists|i: int| 0 <= i < cs.len() && (#[trigger] cs[i]).0 == ChunkKind::Error {
            let i = choose|i: int| 0 <= i < cs.len() && (#[trigger] cs[i]).0 == ChunkKind::Error;
            if i < cs.len() - 1 {
                assert(p[i] == cs[i]);
            }
        }
    }
}

} // verus!
