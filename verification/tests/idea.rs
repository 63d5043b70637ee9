use patent_hub::routes::idea::{
    batch_compare_error, char_trigrams, chat_window, check_chat_message, compression_prompt,
    idea_context, key_analysis_lines, summary_prompt, trigram_overlap,
};

fn msgs(n: usize) -> Vec<(String, String)> {
    (0..n).map(|i| (if i % 2 == 0 { "user" } else { "assistant" }.to_string(), format!("m{}", i))).collect()
}

#[test]
fn trigrams_and_overlap() {
    let t = char_trigrams("abcab");
    assert_eq!(t, vec!["abc".to_string(), "bca".to_string(), "cab".to_string()]);
    assert!(char_trigrams("ab").is_empty());
    assert_eq!(trigram_overlap("abcd", "bcde"), (1, 3));
    assert_eq!(trigram_overlap("", ""), (0, 0));
}

#[test]
fn comparison_sizes() {
    assert_eq!(batch_compare_error(1), Some("至少需要 2 个创意进行对比"));
    assert_eq!(batch_compare_error(11), Some("最多支持 10 个创意同时对比"));
    assert_eq!(batch_compare_error(2), None);
    assert_eq!(batch_compare_error(10), None);
}

#[test]
fn chat_messages_are_checked() {
    assert_eq!(check_chat_message("  hi  "), Ok("hi".to_string()));
    assert_eq!(check_chat_message("   "), Err("消息不能为空".to_string()));
    assert_eq!(check_chat_message(&"x".repeat(5001)), Err("消息过长（最多5000字符）".to_string()));
    assert!(check_chat_message(&"x".repeat(5000)).is_ok());
}

#[test]
fn long_discussions_are_compressed_once() {
    assert!(compression_prompt("T", &msgs(8), false).is_none());
    assert!(compression_prompt("T", &msgs(9), true).is_none());
    let p = compression_prompt("T", &msgs(9), false).unwrap();
    assert!(p.starts_with("请将以下关于「T」的研发讨论对话压缩为一段简洁的摘要"));
    assert!(p.ends_with("用户：m0\n\nAI：m1\n\n用户：m2\n\n"));
}

#[test]
fn chat_window_keeps_last_six() {
    let w = chat_window(&msgs(9), "new");
    assert_eq!(w.len(), 7);
    assert_eq!(w[0].1, "m3");
    assert_eq!(w[6], ("user".to_string(), "new".to_string()));
    assert_eq!(chat_window(&msgs(2), "n").len(), 3);
}

#[test]
fn context_holds_key_analysis_lines() {
    let analysis = "# 标题\n普通的一行\n- 要点\n评分很高\n\n   ";
    assert_eq!(key_analysis_lines(analysis), vec!["# 标题".to_string(), "- 要点".to_string(), "评分很高".to_string()]);
    let c = idea_context("T", "D", "done", analysis, Some("85.0"), "");
    assert!(c.contains("**标题：** T\n**描述：** D\n**状态：** done\n"));
    assert!(c.contains("\n## 验证分析结果（关键结论）\n# 标题\n- 要点\n评分很高\n"));
    assert!(c.contains("\n**新颖性评分：** 85.0/100\n"));
    assert!(!c.contains("之前的讨论记忆"));
    assert!(c.ends_with("7. **简洁有力**：不说废话，每句话都有信息量\n"));
    let many: String = (0..40).map(|i| format!("- {}\n", i)).collect();
    assert_eq!(key_analysis_lines(&many).len(), 30);
}

#[test]
fn discussion_summary_prompt() {
    assert!(summary_prompt("T", "D", &vec![]).is_none());
    let p = summary_prompt("T", "D", &msgs(2)).unwrap();
    assert!(p.starts_with("创意标题：T\n创意描述：D\n\n讨论记录：\n\n【用户】m0\n\n【AI】m1\n\n\n请对以上讨论进行总结"));
}
