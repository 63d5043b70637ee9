use patent_hub::chat::{
    brief_summary_prompt, chat_messages, claims_analysis_system, split_stream_buffer, stream_delta, stream_line,
    summarize_prompt, system_and_user, StreamLine,
};
use patent_hub::json::Json;
use patent_hub::pipeline::context::DimensionInsight;
use patent_hub::pipeline::steps::analysis::{
    action_plan_prompt, action_plan_unavailable, analysis_unavailable, contradictions_summary, matches_summary,
    PromptContradiction, PromptMatch,
};
use patent_hub::pipeline::steps::claims::{claim_prompt, claim_rows, claims_json_text};
use patent_hub::pipeline::steps::deep_reasoning::{
    dimension_failed, dimension_insight, dimension_key, dimension_label, dimension_progress,
    dimension_temperature_tenths, synthesis_prompt, user_context, ContextContradiction, ContextMatch,
    DIMENSION_COUNT,
};
use patent_hub::pipeline::steps::finalize::{code_only_report, novelty_level, snippet_preview, ReportFigures, ReportMatch};

fn s(x: &str) -> Json {
    Json::Str(x.to_string())
}

fn n(x: &str) -> Json {
    Json::Number(x.to_string())
}

fn obj(v: Vec<(&str, Json)>) -> Json {
    Json::Object(v.into_iter().map(|(k, x)| (k.to_string(), x)).collect())
}

#[test]
fn chat_messages_put_context_between_system_and_user() {
    let m = chat_messages("问题", Some("专利A"));
    assert_eq!(m.len(), 3);
    assert_eq!(m[0].role, "system");
    assert!(m[0].content.starts_with("你是一个专利分析助手。"));
    assert_eq!(m[1].content, "以下是相关专利信息供参考：\n专利A");
    assert_eq!(m[2].role, "user");
    assert_eq!(m[2].content, "问题");
    let m = chat_messages("q", None);
    assert_eq!(m.len(), 2);
    let m = system_and_user(claims_analysis_system(), "u".to_string());
    assert_eq!(m[0].content, "你是一位资深专利代理人和知识产权律师。你擅长解读专利权利要求书，分析保护范围，识别关键技术特征。请用专业、严谨的语言分析。");
    assert_eq!(m[1].content, "u");
}

#[test]
fn summarize_prompt_clips_claims_at_2000_bytes() {
    let claims = "a".repeat(2500);
    let p = summarize_prompt("T", "A", &claims);
    let expected = format!(
        "请对以下专利进行全面分析摘要：\n\n标题：T\n\n摘要：A\n\n权利要求（前部分）：{}\n\n请从以下几个方面分析：\n1. 技术领域\n2. 核心技术方案\n3. 创新点\n4. 应用场景\n5. 关键权利要求解读",
        "a".repeat(2000)
    );
    assert_eq!(p, expected);
}

#[test]
fn brief_summary_does_not_split_characters() {
    // 167 three-byte characters take 501 bytes: only 166 fit in 500.
    let abs = "专".repeat(167);
    let p = brief_summary_prompt("标题", &abs);
    assert_eq!(p, format!("请用2-3句话简要总结这个专利的核心技术方案：\n标题：标题\n摘要：{}", "专".repeat(166)));
}

#[test]
fn stream_buffer_splits_complete_lines() {
    let (lines, rest) = split_stream_buffer("data: a\n  data: b  \r\npartial");
    assert_eq!(lines, vec!["data: a".to_string(), "data: b".to_string()]);
    assert_eq!(rest, "partial");
    let (lines, rest) = split_stream_buffer("no newline");
    assert!(lines.is_empty());
    assert_eq!(rest, "no newline");
}

#[test]
fn stream_lines_are_classified() {
    assert!(matches!(stream_line("data: [DONE]"), StreamLine::Done));
    match stream_line("data: {\"x\":1}") {
        StreamLine::Data(p) => assert_eq!(p, "{\"x\":1}"),
        other => panic!("{:?}", other),
    }
    assert!(matches!(stream_line(": keep-alive"), StreamLine::Other));
}

#[test]
fn stream_delta_reads_non_empty_content() {
    let chunk = |c: &str| obj(vec![("choices", Json::Array(vec![obj(vec![("delta", obj(vec![("content", s(c))]))])]))]);
    assert_eq!(stream_delta(&chunk("你好")), Some("你好".to_string()));
    assert_eq!(stream_delta(&chunk("")), None);
    assert_eq!(stream_delta(&obj(vec![])), None);
}

#[test]
fn novelty_levels_follow_score_bands() {
    assert_eq!(novelty_level(100), "高度新颖 — 未找到高度相似的现有方案");
    assert_eq!(novelty_level(80), "高度新颖 — 未找到高度相似的现有方案");
    assert_eq!(novelty_level(79), "较为新颖 — 存在部分相关方案但有明显差异");
    assert_eq!(novelty_level(40), "中等新颖 — 存在较多相似方案，需要差异化");
    assert_eq!(novelty_level(39), "新颖性较低 — 已有多个类似方案");
    assert_eq!(novelty_level(0), "新颖性很低 — 与现有方案高度重合");
    assert_eq!(novelty_level(101), "新颖性很低 — 与现有方案高度重合");
}

#[test]
fn snippet_preview_counts_bytes_then_characters() {
    assert_eq!(snippet_preview("short", 100), "short");
    let long = "字".repeat(40); // 120 bytes
    assert_eq!(snippet_preview(&long, 100), format!("{}...", "字".repeat(40)));
    let ascii = "x".repeat(101);
    assert_eq!(snippet_preview(&ascii, 100), format!("{}...", "x".repeat(100)));
}

#[test]
fn code_only_report_lists_figures_matches_and_contradictions() {
    let f = ReportFigures {
        novelty: "73".to_string(),
        level_score: 73,
        max_similarity: "41.5".to_string(),
        avg_top5: "30.0".to_string(),
        contradiction_bonus: "3".to_string(),
        contradictions: 1,
        coverage_bonus: "0".to_string(),
        coverage: "62".to_string(),
    };
    let ms = vec![ReportMatch { rank: 1, title: "T1".to_string(), score: "41.5".to_string(), snippet: "s1".to_string() }];
    let cs = vec![("材料".to_string(), "机会".to_string())];
    let r = code_only_report(&f, &ms, &cs);
    let expected = "## 创新验证报告（数据驱动）\n\n**新颖性评分：73/100**\n\n**评估等级：** 较为新颖 — 存在部分相关方案但有明显差异\n\n### 评分构成\n\n| 指标 | 数值 | 说明 |\n|------|------|------|\n| 最高相似度 | 41.5% | 与最相似现有技术的匹配度 |\n| Top5 平均相似度 | 30.0% | 前 5 个最相似方案的平均值 |\n| 矛盾信号加分 | +3 | 检测到 1 个技术路线矛盾 |\n| 覆盖缺口加分 | +0 | 搜索覆盖度 62% |\n\n### 最相关的现有技术\n\n1. **T1** (相似度 41.5%)\n   s1\n\n### 矛盾信号（创新机会）\n\n- **材料**\n  机会\n\n";
    assert_eq!(r, expected);
}

#[test]
fn code_only_report_keeps_five_matches() {
    let f = ReportFigures {
        novelty: "10".to_string(),
        level_score: 10,
        max_similarity: "0.0".to_string(),
        avg_top5: "0.0".to_string(),
        contradiction_bonus: "0".to_string(),
        contradictions: 0,
        coverage_bonus: "0".to_string(),
        coverage: "0".to_string(),
    };
    let ms: Vec<ReportMatch> = (1..=7)
        .map(|i| ReportMatch { rank: i, title: format!("M{}", i), score: "1.0".to_string(), snippet: String::new() })
        .collect();
    let r = code_only_report(&f, &ms, &vec![]);
    assert!(r.contains("5. **M5**"));
    assert!(!r.contains("M6"));
    assert!(!r.contains("矛盾信号（创新机会）"));
}

#[test]
fn analysis_summaries_and_fallback_texts() {
    let ms = vec![PromptMatch {
        source_type: "patent".to_string(),
        title: "T".to_string(),
        score: "12.5".to_string(),
        snippet: "snip".to_string(),
        url: "http://u".to_string(),
    }];
    assert_eq!(matches_summary(&ms), "- [patent] T (相似度: 12.5%)\n  snip\n  来源: http://u");
    assert_eq!(contradictions_summary(&vec![]), "未检测到明显的技术路线矛盾。");
    let cs = vec![
        PromptContradiction { dimension: "A".to_string(), strength: "50".to_string(), opportunity: "x".to_string() },
        PromptContradiction { dimension: "B".to_string(), strength: "20".to_string(), opportunity: "y".to_string() },
    ];
    assert_eq!(
        contradictions_summary(&cs),
        "- 矛盾维度: A\n  信号强度: 50%\n  机会: x\n\n- 矛盾维度: B\n  信号强度: 20%\n  机会: y"
    );
    assert_eq!(
        analysis_unavailable("超时", "88", 3, 2),
        "AI 分析暂不可用（超时）。\n\n基于代码计算的结果：新颖性评分 88/100，找到 3 个相关现有技术，2 个矛盾信号。\n请参考上方的量化数据进行判断。"
    );
    assert_eq!(action_plan_unavailable("e"), "行动方案生成暂不可用：e");
    let p = action_plan_prompt("创意", "70", "领域", 4, &"分".repeat(600));
    assert!(p.contains("**矛盾信号数量：** 4\n"));
    assert!(p.contains(&format!("**AI 分析摘要（前 500 字）：**\n{}\n\n请给出", "分".repeat(500))));
}

#[test]
fn claim_reply_is_cleaned_and_read() {
    assert_eq!(claims_json_text("  ```json\n{\"claims\":[]}\n```  "), "{\"claims\":[]}");
    let parsed = obj(vec![(
        "claims",
        Json::Array(vec![
            obj(vec![
                ("claim_number", n("4294967297")),
                ("content", s("一种装置")),
                (
                    "features",
                    Json::Array(vec![obj(vec![("description", s("特征")), ("novelty_flag", Json::Bool(true))])]),
                ),
            ]),
            obj(vec![("claim_type", s("dependent"))]),
        ]),
    )]);
    let rows = claim_rows(&parsed).unwrap();
    assert_eq!(rows.len(), 2);
    assert_eq!(rows[0].claim_number, 1);
    assert_eq!(rows[0].claim_type, "independent");
    assert_eq!(rows[0].content, "一种装置");
    assert_eq!(rows[0].features.len(), 1);
    assert!(rows[0].features[0].novelty);
    assert_eq!(rows[1].claim_number, 0);
    assert_eq!(rows[1].claim_type, "dependent");
    assert!(rows[1].features.is_empty());
    assert!(claim_rows(&obj(vec![("claims", s("none"))])).is_none());
    let many = obj(vec![("claims", Json::Array((0..12).map(|_| obj(vec![])).collect()))]);
    assert_eq!(claim_rows(&many).unwrap().len(), 10);
    let p = claim_prompt("t", "d", "x", "55.0", "a");
    assert!(p.ends_with("创意：t\n描述：d\n技术领域：x\n新颖性评分：55.0/100\n分析：a"));
}

#[test]
fn deep_reasoning_rounds_and_prompts() {
    assert_eq!(DIMENSION_COUNT, 6);
    assert_eq!(dimension_key(0), "scientific");
    assert_eq!(dimension_label(5), "跨域映射");
    assert_eq!(dimension_temperature_tenths(1), 8);
    assert_eq!(dimension_progress(2), "多维推演：知识审计 (3/7)");
    assert_eq!(dimension_failed("x"), "（此维度推演未完成：x）");
    let d = dimension_insight(0, "短\n这是一条足够长的核心洞察内容文本".to_string());
    assert_eq!(d.dimension, "scientific");
    assert_eq!(d.label, "科学推导");
    let ctx = user_context(
        "T",
        "D",
        "F",
        "60",
        &vec![ContextMatch { source_type: "web".to_string(), title: "M".to_string(), score: "40".to_string(), snippet: "s".to_string() }],
        &vec![],
    );
    assert_eq!(
        ctx,
        "## 待分析的创意\n**标题：** T\n**描述：** D\n**技术领域：** F\n**新颖性评分：** 60/100\n\n## 已发现的相关现有技术\n- [web] M (相似度: 40%): s\n\n## 已检测到的技术路线矛盾\n无\n\n基于以上信息，按你的思维框架进行分析。"
    );
    let ctx2 = user_context("T", "D", "F", "60", &vec![], &vec![ContextContradiction {
        dimension: "成本".to_string(),
        opportunity: "降本".to_string(),
        strength: "70".to_string(),
    }]);
    assert!(ctx2.contains("## 已检测到的技术路线矛盾\n- 成本: 降本 (强度 70%)\n\n"));
    let ds = vec![
        DimensionInsight { dimension: "a".to_string(), label: "甲".to_string(), reasoning: "r1".to_string(), key_insight: String::new() },
        DimensionInsight { dimension: "b".to_string(), label: "乙".to_string(), reasoning: "r2".to_string(), key_insight: String::new() },
    ];
    assert_eq!(
        synthesis_prompt("T", "D", &ds),
        "以下是 6 位不同思维模式专家对同一个创意的分析：\n\n**创意：** T\n**描述：** D\n\n---\n\n## [甲] 维度分析\n\nr1\n\n---\n\n## [乙] 维度分析\n\nr2\n\n\n---\n\n请进行跨维度合成分析。"
    );
}
