//! Prompt pieces: the static prefix, the session slots and token estimates.
use vstd::prelude::*;
use crate::llm::{blocks_view, ChatRequest, Message, TextBlock};
use crate::llm::tool_use_loop::tool_registry::ToolDefinition;
use crate::text::{
    starts_with_seq,
    alnum_of, char_is_alnum, lemma_names_push, chars_of, concat2, decimal_seq, decimal_string, join_seq, join_strings,
    names_view, owned, slice_chars, string_of, };

verus! {

/// Core system instructions of the agent.
pub const SYSTEM_CORE: &'static str = "你是 DevOps Agent，专注于 CI/CD 流水线管理、构建分析和部署运维。\n行为准则：\n1. 使用中文回复，保持专业简洁\n2. 分析构建日志时给出结构化结果\n3. 优先使用工具获取信息，不猜测\n安全红线：\n1. 不执行破坏性命令（rm -rf、格式化磁盘等）\n2. 不泄露敏感信息（API Key、Token、密码）\n3. 不访问未授权的资源";

/// Guidelines on the helper tools.
pub const TOOL_GUIDELINES: &'static str = "可用辅助工具：\n- get_time: 获取当前时间（ISO 8601 + Unix 时间戳）\n- get_env: 读取白名单内的环境变量\n- get_config: 读取项目配置项\n使用建议：先获取上下文信息再执行操作，避免盲目操作。";

/// Default project rules.
pub const DEFAULT_PROJECT_RULES: &'static str = "项目规则：\n1. 构建失败时分析根因并给出修复建议\n2. 部署前确认目标环境和分支\n3. 所有操作需要记录审计日志";

/// The static prompt prefix: core instructions, tool guidelines and project rules,
/// separated by blank lines.
#[derive(Debug, Clone)]
pub struct StaticPrefix {
    compiled: String,
}

impl StaticPrefix {
    /// The compiled prefix.
    pub closed spec fn text(&self) -> Seq<char> {
        self.compiled@
    }

    /// Compiles the three parts, with a blank line between consecutive ones.
    pub fn new(system_core: String, tool_guidelines: String, project_rules: String) -> (p: StaticPrefix)
        ensures
            p.text() == system_core@ + "\n\n"@ + tool_guidelines@ + "\n\n"@ + project_rules@,
    {
        let mut compiled = concat2(system_core.as_str(), "\n\n");
        compiled.append(tool_guidelines.as_str());
        compiled.append("\n\n");
        compiled.append(project_rules.as_str());
        StaticPrefix { compiled }
    }

    /// The compiled prefix.
    pub fn as_str(&self) -> (s: &str)
        ensures
            s@ == self.text(),
    {
        self.compiled.as_str()
    }
}

/// The prefix built from the default core instructions, tool guidelines and project rules.
pub fn default_static_prefix() -> (p: StaticPrefix)
    ensures
        p.text() == SYSTEM_CORE@ + "\n\n"@ + TOOL_GUIDELINES@ + "\n\n"@ + DEFAULT_PROJECT_RULES@,
{
    StaticPrefix::new(owned(SYSTEM_CORE), owned(TOOL_GUIDELINES), owned(DEFAULT_PROJECT_RULES))
}

/// `s` cut to `max` characters, with `…` appended when it was longer.
pub open spec fn truncated(s: Seq<char>, max: nat) -> Seq<char> {
    if s.len() <= max { s } else { s.subrange(0, max as int) + "…"@ }
}

/// `s` cut to `max_chars` characters, with `…` appended when it was longer.
pub fn truncate_to(s: String, max_chars: usize) -> (r: String)
    ensures
        r@ == truncated(s@, max_chars as nat),
{
    let cv = chars_of(s.as_str());
    if cv.len() <= max_chars {
        s
    } else {
        let head = slice_chars(&cv, 0, max_chars);
        let mut r = string_of(head.as_slice());
        r.append("…");
        r
    }
}

/// Lines `  1. a`, `  2. b`, ... for the items.
pub open spec fn numbered(items: Seq<Seq<char>>) -> Seq<Seq<char>> {
    Seq::new(items.len(), |i: int| "  "@ + decimal_seq((i + 1) as nat) + ". "@ + items[i])
}

/// The non-empty parts of the session context: goal, recent steps, active errors.
pub open spec fn context_parts(goal: Option<Seq<char>>, steps: Seq<Seq<char>>, errors: Seq<Seq<char>>) -> Seq<Seq<char>> {
    let g: Seq<Seq<char>> = match goal {
        Some(x) => seq!["当前目标: "@ + x],
        None => Seq::empty(),
    };
    let s: Seq<Seq<char>> = if steps.len() > 0 {
        seq!["最近步骤:\n"@ + join_seq(numbered(steps), "\n"@)]
    } else {
        Seq::empty()
    };
    let e: Seq<Seq<char>> = if errors.len() > 0 {
        seq!["活跃错误:\n"@ + join_seq(numbered(errors), "\n"@)]
    } else {
        Seq::empty()
    };
    g + s + e
}

/// The numbered lines for `items`.
fn numbered_lines(items: &Vec<String>) -> (v: Vec<String>)
    ensures
        names_view(v@) == numbered(names_view(items@)),
{
    let mut v: Vec<String> = Vec::new();
    let mut i: usize = 0;
    while i < items.len()
        invariant
            i <= items.len(),
            names_view(v@) == numbered(names_view(items@)).subrange(0, i as int),
        decreases items.len() - i,
    {
        let mut line = concat2("  ", decimal_string((i + 1) as u64).as_str());
        line.append(". ");
        line.append(items[i].as_str());
        assert(line@ == numbered(names_view(items@))[i as int]);
        proof { lemma_names_push(v@, line); }
        v.push(line);
        i = i + 1;
        assert(names_view(v@) =~= numbered(names_view(items@)).subrange(0, i as int));
    }
    assert(numbered(names_view(items@)).subrange(0, items.len() as int) =~= numbered(names_view(items@)));
    v
}

/// The session's working memory: goal, the last five steps, the last three errors.
#[derive(Debug, Clone)]
pub struct SessionSlots {
    pub goal: Option<String>,
    pub recent_steps: Vec<String>,
    pub active_errors: Vec<String>,
    pub max_slot_chars: usize,
}

/// Steps kept.
pub open spec fn max_steps() -> nat {
    5
}

/// Errors kept.
pub open spec fn max_errors() -> nat {
    3
}

/// `items` with `x` appended, dropping the oldest first when `cap` are already there.
pub open spec fn push_bounded(items: Seq<Seq<char>>, x: Seq<char>, cap: nat) -> Seq<Seq<char>> {
    if items.len() >= cap { items.drop_first().push(x) } else { items.push(x) }
}

impl SessionSlots {
    /// The goal as characters.
    pub open spec fn goal_view(&self) -> Option<Seq<char>> {
        match self.goal {
            Some(g) => Some(g@),
            None => None,
        }
    }

    /// No goal, no steps, no errors, 500 characters per slot.
    pub fn new() -> (s: SessionSlots)
        ensures
            s.goal is None,
            s.recent_steps@.len() == 0,
            s.active_errors@.len() == 0,
            s.max_slot_chars == 500,
    {
        SessionSlots { goal: None, recent_steps: Vec::new(), active_errors: Vec::new(), max_slot_chars: 500 }
    }

    /// Records a step, cut to the slot size; the oldest goes when five are kept.
    pub fn add_step(&mut self, step: String)
        ensures
            names_view(final(self).recent_steps@) == push_bounded(
                names_view(old(self).recent_steps@),
                truncated(step@, old(self).max_slot_chars as nat),
                max_steps(),
            ),
            final(self).active_errors == old(self).active_errors,
            final(self).goal == old(self).goal,
            final(self).max_slot_chars == old(self).max_slot_chars,
    {
        if self.recent_steps.len() >= 5 {
            self.recent_steps.remove(0);
        }
        let t = truncate_to(step, self.max_slot_chars);
        self.recent_steps.push(t);
        proof {
            let o = names_view(old(self).recent_steps@);
            if o.len() >= 5 {
                assert(names_view(self.recent_steps@) =~= o.drop_first().push(t@));
            } else {
                assert(names_view(self.recent_steps@) =~= o.push(t@));
            }
        }
    }

    /// Records an error, cut to the slot size; the oldest goes when three are kept.
    pub fn add_error(&mut self, error: String)
        ensures
            names_view(final(self).active_errors@) == push_bounded(
                names_view(old(self).active_errors@),
                truncated(error@, old(self).max_slot_chars as nat),
                max_errors(),
            ),
            final(self).recent_steps == old(self).recent_steps,
            final(self).goal == old(self).goal,
            final(self).max_slot_chars == old(self).max_slot_chars,
    {
        if self.active_errors.len() >= 3 {
            self.active_errors.remove(0);
        }
        let t = truncate_to(error, self.max_slot_chars);
        self.active_errors.push(t);
        proof {
            let o = names_view(old(self).active_errors@);
            if o.len() >= 3 {
                assert(names_view(self.active_errors@) =~= o.drop_first().push(t@));
            } else {
                assert(names_view(self.active_errors@) =~= o.push(t@));
            }
        }
    }

    /// The session context: goal, numbered steps and numbered errors, each part present
    /// only when there is something in it, separated by blank lines.
    pub fn to_context(&self) -> (s: String)
        ensures
            s@ == join_seq(
                context_parts(self.goal_view(), names_view(self.recent_steps@), names_view(self.active_errors@)),
                "\n\n"@,
            ),
    {
        let mut parts: Vec<String> = Vec::new();
        match &self.goal {
            Some(g) => {
                parts.push(concat2("当前目标: ", g.as_str()));
            },
            None => {},
        }
        if self.recent_steps.len() > 0 {
            let lines = numbered_lines(&self.recent_steps);
            let body = join_strings(&lines, "\n");
            parts.push(concat2("最近步骤:\n", body.as_str()));
        }
        if self.active_errors.len() > 0 {
            let lines = numbered_lines(&self.active_errors);
            let body = join_strings(&lines, "\n");
            parts.push(concat2("活跃错误:\n", body.as_str()));
        }
        assert(names_view(parts@) =~= context_parts(
            self.goal_view(),
            names_view(self.recent_steps@),
            names_view(self.active_errors@),
        ));
        join_strings(&parts, "\n\n")
    }
}

impl Default for SessionSlots {
    fn default() -> (s: SessionSlots)
        ensures
            s.goal is None,
            s.recent_steps@.len() == 0,
            s.active_errors@.len() == 0,
            s.max_slot_chars == 0,
    {
        SessionSlots { goal: None, recent_steps: Vec::new(), active_errors: Vec::new(), max_slot_chars: 0 }
    }
}

/// Weight of each character in quarter tokens: an ASCII character counts 1, another
/// letter or digit 6, anything else 4.
pub open spec fn quarter_tokens(s: Seq<char>) -> nat
    decreases s.len(),
{
    if s.len() == 0 {
        0
    } else {
        quarter_tokens(s.drop_last()) + if (s.last() as u32) < 128 {
            1nat
        } else if alnum_of(s.last()) {
            6nat
        } else {
            4nat
        }
    }
}

/// Estimated tokens of a text: a quarter token per ASCII character, one and a half per
/// other letter or digit, one per other character, rounded down and capped at `u32::MAX`.
pub open spec fn token_estimate(s: Seq<char>) -> u32 {
    let q = quarter_tokens(s) / 4;
    if q > u32::MAX { u32::MAX } else { q as u32 }
}

/// Quarter-token weights never exceed six per character.
proof fn lemma_quarter_bound(s: Seq<char>)
    ensures
        quarter_tokens(s) <= 6 * s.len(),
    decreases s.len(),
{
    if s.len() > 0 {
        lemma_quarter_bound(s.drop_last());
    }
}

/// Estimated tokens of `s`.
pub fn estimate_tokens(s: &str) -> (n: u32)
    ensures
        n == token_estimate(s@),
{
    let cv = chars_of(s);
    let mut q: u128 = 0;
    let mut i: usize = 0;
    while i < cv.len()
        invariant
            i <= cv.len(),
            q == quarter_tokens(cv@.subrange(0, i as int)),
        decreases cv.len() - i,
    {
        proof {
            assert(cv@.subrange(0, i + 1).drop_last() =~= cv@.subrange(0, i as int));
            lemma_quarter_bound(cv@.subrange(0, i as int));
        }
        let c = cv[i];
        if (c as u32) < 128 {
            q = q + 1;
        } else if char_is_alnum(c) {
            q = q + 6;
        } else {
            q = q + 4;
        }
        i = i + 1;
    }
    assert(cv@.subrange(0, cv.len() as int) =~= cv@);
    let t = q / 4;
    if t > 4294967295u128 {
        4294967295u32
    } else {
        t as u32
    }
}

/// The session slots stay bounded: with a capacity of at least one, pushing onto at most
/// `cap` items leaves at most `cap` items, the new one last and the older ones kept in order.
pub proof fn lemma_push_bounded(items: Seq<Seq<char>>, x: Seq<char>, cap: nat)
    requires
        cap >= 1,
        items.len() <= cap,
    ensures
        push_bounded(items, x, cap).len() <= cap,
        push_bounded(items, x, cap).last() == x,
        push_bounded(items, x, cap).drop_last() == (if items.len() >= cap { items.drop_first() } else { items }),
{
    let r = push_bounded(items, x, cap);
    if items.len() >= cap {
        assert(r.drop_last() =~= items.drop_first());
    } else {
        assert(r.drop_last() =~= items);
    }
}

/// The relevant memories, each cut to `max_chars` characters, in order.
pub open spec fn picked_memories(mems: Seq<(Seq<char>, bool)>, max_chars: nat) -> Seq<Seq<char>>
    decreases mems.len(),
{
    if mems.len() == 0 {
        Seq::empty()
    } else if mems.last().1 {
        picked_memories(mems.drop_last(), max_chars).push(truncated(mems.last().0, max_chars))
    } else {
        picked_memories(mems.drop_last(), max_chars)
    }
}

/// The first `n` items of `s`.
pub open spec fn first_n<T>(s: Seq<T>, n: nat) -> Seq<T> {
    if s.len() <= n { s } else { s.subrange(0, n as int) }
}

/// The layers of the system prompt: the static prefix; the numbered relevant memories (at
/// most `max_slots`, each cut to `max_chars`), when there are any; the session context,
/// when it is not empty.
pub open spec fn system_layers_of(
    prefix: Seq<char>,
    mems: Seq<(Seq<char>, bool)>,
    max_slots: nat,
    max_chars: nat,
    context: Seq<char>,
) -> Seq<Seq<char>> {
    let sel = first_n(picked_memories(mems, max_chars), max_slots);
    let m: Seq<Seq<char>> = if sel.len() > 0 {
        seq!["相关记忆:\n"@ + join_seq(numbered(sel), "\n"@)]
    } else {
        Seq::empty()
    };
    let c: Seq<Seq<char>> = if context.len() > 0 {
        seq!["会话上下文:\n"@ + context]
    } else {
        Seq::empty()
    };
    seq![prefix] + m + c
}

/// A join of parts starts with its first part.
proof fn lemma_join_starts_with_first(parts: Seq<Seq<char>>, sep: Seq<char>)
    requires
        parts.len() >= 1,
    ensures
        starts_with_seq(join_seq(parts, sep), parts[0]),
    decreases parts.len(),
{
    if parts.len() > 1 {
        lemma_join_starts_with_first(parts.drop_last(), sep);
        let j = join_seq(parts.drop_last(), sep);
        assert((j + sep + parts.last()).subrange(0, parts[0].len() as int) =~= j.subrange(0, parts[0].len() as int));
    } else {
        assert(join_seq(parts, sep).subrange(0, parts[0].len() as int) =~= parts[0]);
    }
}

/// The system prompt always starts with the static prefix, whatever the memories and the
/// session: the prefix is the part of the prompt that a provider can cache.
pub proof fn lemma_system_prompt_starts_with_prefix(
    prefix: Seq<char>,
    mems: Seq<(Seq<char>, bool)>,
    max_slots: nat,
    max_chars: nat,
    context: Seq<char>,
)
    ensures
        starts_with_seq(join_seq(system_layers_of(prefix, mems, max_slots, max_chars, context), "\n\n"@), prefix),
{
    let layers = system_layers_of(prefix, mems, max_slots, max_chars, context);
    assert(layers[0] == prefix);
    lemma_join_starts_with_first(layers, "\n\n"@);
}

/// Layers as text blocks, each with a cache breakpoint.
pub open spec fn cached_layers(layers: Seq<Seq<char>>) -> Seq<(Seq<char>, bool)> {
    layers.map_values(|l: Seq<char>| (l, true))
}

/// The layers as text blocks, each with a cache breakpoint.
fn cached_blocks(layers: Vec<String>) -> (v: Vec<TextBlock>)
    ensures
        blocks_view(v@) == cached_layers(names_view(layers@)),
{
    let mut v: Vec<TextBlock> = Vec::new();
    let mut i: usize = 0;
    while i < layers.len()
        invariant
            i <= layers.len(),
            blocks_view(v@) =~= cached_layers(names_view(layers@.subrange(0, i as int))),
        decreases layers.len() - i,
    {
        let ghost before = v@;
        v.push(TextBlock { text: owned(layers[i].as_str()), cache_breakpoint: true });
        assert(blocks_view(v@) =~= blocks_view(before).push((layers@[i as int]@, true)));
        assert(names_view(layers@.subrange(0, i + 1)) =~= names_view(layers@.subrange(0, i as int)).push(layers@[i as int]@));
        i = i + 1;
        assert(blocks_view(v@) =~= cached_layers(names_view(layers@.subrange(0, i as int))));
    }
    assert(layers@.subrange(0, layers.len() as int) =~= layers@);
    v
}

/// A tool definition with or without a cache breakpoint.
#[derive(Debug)]
pub struct CachedTool {
    pub definition: ToolDefinition,
    pub cache_breakpoint: bool,
}

/// A tool as (name, description, parameters, breakpoint).
pub type CachedToolView = (Seq<char>, Seq<char>, Seq<char>, bool);

/// A tool as characters.
pub open spec fn cached_view(t: CachedTool) -> CachedToolView {
    (t.definition.name@, t.definition.description@, t.definition.parameters@, t.cache_breakpoint)
}

/// A tool definition as characters, with the given breakpoint.
pub open spec fn def_view(t: ToolDefinition, cached: bool) -> CachedToolView {
    (t.name@, t.description@, t.parameters@, cached)
}

/// The marker tool that only carries a cache breakpoint.
pub open spec fn breakpoint_marker() -> CachedToolView {
    (Seq::empty(), Seq::empty(), "{}"@, true)
}

/// The definitions as characters, all with the given breakpoint.
pub open spec fn defs_view(v: Seq<ToolDefinition>, cached: bool) -> Seq<CachedToolView> {
    v.map_values(|t: ToolDefinition| def_view(t, cached))
}

/// The tool list of a request: nothing when there is no tool at all; else the static
/// tools with breakpoints, then a marker and the workflow tools with breakpoints (when
/// there are any), then a marker and the request tools as given (when there are any).
pub open spec fn merged_tools(stat: Seq<ToolDefinition>, workflow: Seq<ToolDefinition>, request: Seq<ToolDefinition>) -> Seq<CachedToolView> {
    if stat.len() + workflow.len() + request.len() == 0 {
        Seq::empty()
    } else {
        defs_view(stat, true) + (if workflow.len() > 0 {
            seq![breakpoint_marker()] + defs_view(workflow, true)
        } else {
            Seq::empty()
        }) + (if request.len() > 0 {
            seq![breakpoint_marker()] + defs_view(request, false)
        } else {
            Seq::empty()
        })
    }
}

/// Appends `defs` with the given breakpoint to `out`.
fn push_defs(out: &mut Vec<CachedTool>, defs: Vec<ToolDefinition>, cached: bool)
    ensures
        final(out)@.map_values(|t: CachedTool| cached_view(t)) == old(out)@.map_values(|t: CachedTool| cached_view(t)) + defs_view(defs@, cached),
{
    let mut defs = defs;
    let ghost all = defs@;
    let mut rest: Vec<ToolDefinition> = Vec::new();
    while defs.len() > 0
        invariant
            defs@.len() <= all.len(),
            defs@ == all.subrange(0, defs@.len() as int),
            out@.map_values(|t: CachedTool| cached_view(t)) == old(out)@.map_values(|t: CachedTool| cached_view(t)),
            rest@.len() == all.len() - defs@.len(),
            forall|k: int| 0 <= k < rest@.len() ==> #[trigger] rest@[k] == all[all.len() - 1 - k],
        decreases defs@.len(),
    {
        let d = defs.pop().unwrap();
        rest.push(d);
    }
    let mut i: usize = 0;
    let n = rest.len();
    while rest.len() > 0
        invariant
            n == all.len(),
            rest@.len() + i == n,
            forall|k: int| 0 <= k < rest@.len() ==> #[trigger] rest@[k] == all[n - 1 - k],
            out@.map_values(|t: CachedTool| cached_view(t)) == old(out)@.map_values(|t: CachedTool| cached_view(t)) + defs_view(
                all.subrange(0, i as int),
                cached,
            ),
        decreases rest@.len(),
    {
        let d = rest.pop().unwrap();
        let ghost before = out@.map_values(|t: CachedTool| cached_view(t));
        let ghost dv = def_view(d, cached);
        assert(d == all[i as int]);
        out.push(CachedTool { definition: d, cache_breakpoint: cached });
        assert(out@.map_values(|t: CachedTool| cached_view(t)) =~= before.push(dv));
        i = i + 1;
        assert(defs_view(all.subrange(0, i as int), cached) =~= defs_view(all.subrange(0, i - 1), cached).push(dv));
    }
    assert(all.subrange(0, n as int) =~= all);
}

/// A copy of a tool definition.
fn copy_def(d: &ToolDefinition) -> (r: ToolDefinition)
    ensures
        r.name@ == d.name@,
        r.description@ == d.description@,
        r.parameters@ == d.parameters@,
{
    ToolDefinition { name: owned(d.name.as_str()), description: owned(d.description.as_str()), parameters: owned(d.parameters.as_str()) }
}

/// The marker tool.
fn marker() -> (t: CachedTool)
    ensures
        cached_view(t) == breakpoint_marker(),
{
    let t = CachedTool {
        definition: ToolDefinition { name: String::new(), description: String::new(), parameters: owned("{}") },
        cache_breakpoint: true,
    };
    assert(t.definition.name@ =~= Seq::<char>::empty());
    assert(t.definition.description@ =~= Seq::<char>::empty());
    t
}

/// Builds prompts: the static prefix, injected memories and session context as system
/// layers, and the merged tool list.
pub struct PromptBuilder {
    static_prefix: StaticPrefix,
    static_tools: Vec<ToolDefinition>,
    max_memory_slots: usize,
    max_memory_chars: usize,
}

impl PromptBuilder {
    /// The static prefix.
    pub closed spec fn prefix(&self) -> Seq<char> {
        self.static_prefix.text()
    }

    /// The static tools.
    pub closed spec fn tools(&self) -> Seq<ToolDefinition> {
        self.static_tools@
    }

    /// Memories injected at most.
    pub closed spec fn max_slots(&self) -> usize {
        self.max_memory_slots
    }

    /// Characters kept per memory.
    pub closed spec fn max_chars(&self) -> usize {
        self.max_memory_chars
    }

    /// The text of the static prefix.
    pub fn static_prefix(&self) -> (s: &str)
        ensures
            s@ == self.prefix(),
    {
        self.static_prefix.as_str()
    }

    /// A builder with the given prefix, static tools and memory limits.
    pub fn new(static_prefix: StaticPrefix, static_tools: Vec<ToolDefinition>, max_memory_slots: usize, max_memory_chars: usize) -> (b: PromptBuilder)
        ensures
            b.prefix() == static_prefix.text(),
            b.tools() == static_tools@,
            b.max_slots() == max_memory_slots,
            b.max_chars() == max_memory_chars,
    {
        PromptBuilder { static_prefix, static_tools, max_memory_slots, max_memory_chars }
    }

    /// A builder with a prefix from the three parts, no static tool and the default limits
    /// (five memories of 300 characters).
    pub fn with_defaults(system_core: String, tool_guidelines: String, project_rules: String) -> (b: PromptBuilder)
        ensures
            b.prefix() == system_core@ + "\n\n"@ + tool_guidelines@ + "\n\n"@ + project_rules@,
            b.tools().len() == 0,
            b.max_slots() == 5,
            b.max_chars() == 300,
    {
        PromptBuilder::new(StaticPrefix::new(system_core, tool_guidelines, project_rules), Vec::new(), 5, 300)
    }

    /// A builder with the default prefix, the given static tools and the default limits.
    pub fn with_static_tools(static_tools: Vec<ToolDefinition>) -> (b: PromptBuilder)
        ensures
            b.prefix() == SYSTEM_CORE@ + "\n\n"@ + TOOL_GUIDELINES@ + "\n\n"@ + DEFAULT_PROJECT_RULES@,
            b.tools() == static_tools@,
            b.max_slots() == 5,
            b.max_chars() == 300,
    {
        PromptBuilder::new(default_static_prefix(), static_tools, 5, 300)
    }

    /// A builder with the default core and guidelines, the given project rules and static
    /// tools, and the default limits.
    pub fn with_project_rules(project_rules: String, static_tools: Vec<ToolDefinition>) -> (b: PromptBuilder)
        ensures
            b.prefix() == SYSTEM_CORE@ + "\n\n"@ + TOOL_GUIDELINES@ + "\n\n"@ + project_rules@,
            b.tools() == static_tools@,
            b.max_slots() == 5,
            b.max_chars() == 300,
    {
        PromptBuilder::new(StaticPrefix::new(owned(SYSTEM_CORE), owned(TOOL_GUIDELINES), project_rules), static_tools, 5, 300)
    }

    /// The layers of the system prompt. `memories` pairs each memory's content with
    /// whether its score reached the injection threshold.
    pub fn system_layers(&self, memories: &Vec<(String, bool)>, session: &SessionSlots) -> (v: Vec<String>)
        ensures
            names_view(v@) == system_layers_of(
                self.prefix(),
                memories@.map_values(|m: (String, bool)| (m.0@, m.1)),
                self.max_slots() as nat,
                self.max_chars() as nat,
                join_seq(context_parts(session.goal_view(), names_view(session.recent_steps@), names_view(session.active_errors@)), "\n\n"@),
            ),
    {
        let ghost mv = memories@.map_values(|m: (String, bool)| (m.0@, m.1));
        let max = self.max_memory_slots;
        let mut picked: Vec<String> = Vec::new();
        let mut i: usize = 0;
        while i < memories.len()
            invariant
                i <= memories.len(),
                mv == memories@.map_values(|m: (String, bool)| (m.0@, m.1)),
                names_view(picked@) == first_n(picked_memories(mv.subrange(0, i as int), self.max_chars() as nat), max as nat),
            decreases memories.len() - i,
        {
            let ghost before = picked_memories(mv.subrange(0, i as int), self.max_chars() as nat);
            proof {
                assert(mv.subrange(0, i + 1).drop_last() =~= mv.subrange(0, i as int));
                assert(mv.subrange(0, i + 1).last() == (memories@[i as int].0@, memories@[i as int].1));
            }
            if memories[i].1 {
                if picked.len() < max {
                    let t = truncate_to(owned(memories[i].0.as_str()), self.max_memory_chars);
                    proof { lemma_names_push(picked@, t); }
                    picked.push(t);
                    assert(names_view(picked@) =~= first_n(before.push(truncated(memories@[i as int].0@, self.max_chars() as nat)), max as nat));
                } else {
                    assert(first_n(before.push(truncated(memories@[i as int].0@, self.max_chars() as nat)), max as nat) =~= first_n(before, max as nat));
                }
            }
            i = i + 1;
        }
        assert(mv.subrange(0, memories@.len() as int) =~= mv);
        let mut layers: Vec<String> = Vec::new();
        let p = owned(self.static_prefix.as_str());
        proof { lemma_names_push(layers@, p); }
        layers.push(p);
        if picked.len() > 0 {
            let lines = numbered_lines(&picked);
            let body = join_strings(&lines, "\n");
            let m = concat2("相关记忆:\n", body.as_str());
            proof { lemma_names_push(layers@, m); }
            layers.push(m);
        }
        let ctx = session.to_context();
        if !ctx.as_str().is_empty() {
            let c = concat2("会话上下文:\n", ctx.as_str());
            proof { lemma_names_push(layers@, c); }
            layers.push(c);
        }
        assert(names_view(layers@) =~= system_layers_of(
            self.prefix(),
            mv,
            self.max_slots() as nat,
            self.max_chars() as nat,
            join_seq(context_parts(session.goal_view(), names_view(session.recent_steps@), names_view(session.active_errors@)), "\n\n"@),
        ));
        layers
    }

    /// The system prompt text: its layers separated by blank lines.
    pub fn build_system_prompt(&self, memories: &Vec<(String, bool)>, session: &SessionSlots) -> (s: String)
        ensures
            s@ == join_seq(
                system_layers_of(
                    self.prefix(),
                    memories@.map_values(|m: (String, bool)| (m.0@, m.1)),
                    self.max_slots() as nat,
                    self.max_chars() as nat,
                    join_seq(context_parts(session.goal_view(), names_view(session.recent_steps@), names_view(session.active_errors@)), "\n\n"@),
                ),
                "\n\n"@,
            ),
    {
        let layers = self.system_layers(memories, session);
        join_strings(&layers, "\n\n")
    }

    /// The tool list of a request from the static, workflow and request tools.
    pub fn merge_tools(&self, workflow_tools: Vec<ToolDefinition>, request_tools: Vec<ToolDefinition>) -> (v: Vec<CachedTool>)
        ensures
            v@.map_values(|t: CachedTool| cached_view(t)) == merged_tools(self.tools(), workflow_tools@, request_tools@),
    {
        let mut out: Vec<CachedTool> = Vec::new();
        if self.static_tools.len() == 0 && workflow_tools.len() == 0 && request_tools.len() == 0 {
            assert(out@.map_values(|t: CachedTool| cached_view(t)) =~= Seq::<CachedToolView>::empty());
            return out;
        }
        let ghost w = workflow_tools@;
        let ghost r = request_tools@;
        let mut stat: Vec<ToolDefinition> = Vec::new();
        let mut k: usize = 0;
        while k < self.static_tools.len()
            invariant
                k <= self.static_tools.len(),
                defs_view(stat@, true) == defs_view(self.static_tools@.subrange(0, k as int), true),
            decreases self.static_tools.len() - k,
        {
            let d = copy_def(&self.static_tools[k]);
            let ghost before = defs_view(stat@, true);
            stat.push(d);
            assert(defs_view(stat@, true) =~= before.push(def_view(self.static_tools@[k as int], true)));
            k = k + 1;
            assert(defs_view(self.static_tools@.subrange(0, k as int), true) =~= defs_view(self.static_tools@.subrange(0, k - 1), true).push(def_view(self.static_tools@[k - 1], true)));
        }
        assert(self.static_tools@.subrange(0, k as int) =~= self.static_tools@);
        assert(out@.map_values(|t: CachedTool| cached_view(t)) =~= Seq::<CachedToolView>::empty());
        push_defs(&mut out, stat, true);
        if workflow_tools.len() > 0 {
            let ghost before = out@.map_values(|t: CachedTool| cached_view(t));
            out.push(marker());
            assert(out@.map_values(|t: CachedTool| cached_view(t)) =~= before.push(breakpoint_marker()));
            push_defs(&mut out, workflow_tools, true);
        }
        if request_tools.len() > 0 {
            let ghost before = out@.map_values(|t: CachedTool| cached_view(t));
            out.push(marker());
            assert(out@.map_values(|t: CachedTool| cached_view(t)) =~= before.push(breakpoint_marker()));
            push_defs(&mut out, request_tools, false);
        }
        assert(out@.map_values(|t: CachedTool| cached_view(t)) =~= merged_tools(self.tools(), w, r));
        out
    }

    /// The full request: the system prompt, the conversation, then the user prompt; the
    /// merged tools when there are any.
    pub fn build(
        &self,
        user_prompt: String,
        memories: &Vec<(String, bool)>,
        session: &SessionSlots,
        workflow_tools: Vec<ToolDefinition>,
        request_tools: Vec<ToolDefinition>,
        conversation: Vec<Message>,
    ) -> (r: ChatRequest)
        ensures
            r.model@.len() == 0,
            r.temperature is None,
            r.tool_choice is None,
            r.stop_sequences is None,
            r.prefill is None,
            r.messages@.len() == conversation@.len() + 2,
            r.messages@[0] matches Message::System { content } && blocks_view(content@) == cached_layers(
                system_layers_of(
                    self.prefix(),
                    memories@.map_values(|m: (String, bool)| (m.0@, m.1)),
                    self.max_slots() as nat,
                    self.max_chars() as nat,
                    join_seq(context_parts(session.goal_view(), names_view(session.recent_steps@), names_view(session.active_errors@)), "\n\n"@),
                ),
            ),
            forall|k: int| 0 <= k < conversation@.len() ==> r.messages@[k + 1] == conversation@[k],
            r.messages@[r.messages@.len() - 1] == (Message::User { content: user_prompt }),
            match r.tools {
                Some(t) => merged_tools(self.tools(), workflow_tools@, request_tools@).len() > 0
                    && t@.map_values(|t: CachedTool| cached_view(t)) == merged_tools(self.tools(), workflow_tools@, request_tools@),
                None => merged_tools(self.tools(), workflow_tools@, request_tools@).len() == 0,
            },
    {
        let ghost wv = workflow_tools@;
        let ghost rv = request_tools@;
        let layers = self.system_layers(memories, session);
        let system = cached_blocks(layers);
        let merged = self.merge_tools(workflow_tools, request_tools);
        let mut messages: Vec<Message> = vec![Message::System { content: system }];
        let ghost start = messages@;
        let mut conversation = conversation;
        let mut i: usize = 0;
        let ghost conv = conversation@;
        let n: usize = conversation.len();
        let mut tail: Vec<Message> = Vec::new();
        while conversation.len() > 0
            invariant
                conversation@ == conv.subrange(0, conversation@.len() as int),
                conv.len() == n,
                tail@.len() == conv.len() - conversation@.len(),
                forall|k: int| 0 <= k < tail@.len() ==> #[trigger] tail@[k] == conv[conv.len() - 1 - k],
            decreases conversation@.len(),
        {
            let m = conversation.pop().unwrap();
            tail.push(m);
        }
        while tail.len() > 0
            invariant
                messages@.len() == 1 + i,
                messages@[0] == start[0],
                conv.len() == n,
                tail@.len() + i == conv.len(),
                forall|k: int| 0 <= k < tail@.len() ==> #[trigger] tail@[k] == conv[conv.len() - 1 - k],
                forall|k: int| 0 <= k < i ==> #[trigger] messages@[k + 1] == conv[k],
            decreases tail@.len(),
        {
            let m = tail.pop().unwrap();
            messages.push(m);
            i = i + 1;
        }
        messages.push(Message::User { content: user_prompt });
        let tools = if merged.len() == 0 { None } else { Some(merged) };
        ChatRequest { model: String::new(), messages, tools, temperature: None, tool_choice: None, stop_sequences: None, prefill: None }
    }

    /// The simple request: the static prefix as system prompt and the user prompt.
    pub fn build_simple(&self, user_prompt: String) -> (r: ChatRequest)
        ensures
            r.model@.len() == 0,
            r.temperature is None,
            r.tool_choice is None,
            r.stop_sequences is None,
            r.prefill is None,
            r.messages@.len() == 2,
            r.messages@[0] matches Message::System { content } && blocks_view(content@) == seq![(self.prefix(), true)],
            r.messages@[1] == (Message::User { content: user_prompt }),
            r.tools is None,
    {
        let system = vec![TextBlock { text: owned(self.static_prefix.as_str()), cache_breakpoint: true }];
        assert(blocks_view(system@) =~= seq![(self.prefix(), true)]);
        ChatRequest {
            model: String::new(),
            messages: vec![Message::System { content: system }, Message::User { content: user_prompt }],
            tools: None,
            temperature: None,
            tool_choice: None,
            stop_sequences: None,
            prefill: None,
        }
    }

    /// Estimated tokens of a system prompt.
    pub fn estimate_system_tokens(&self, system_prompt: &str) -> (n: u32)
        ensures
            n == token_estimate(system_prompt@),
    {
        estimate_tokens(system_prompt)
    }
}

} // verus!
