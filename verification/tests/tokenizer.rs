use onto_studio::tokenizer::{
    is_sentence_boundary, sentence_tokens, split_sentences, utf8_byte_len, utf8_char_len,
    JiebaSentenceTokenizer, Token,
};

fn triples(tokens: &[Token]) -> Vec<(String, usize, usize)> {
    tokens.iter().map(|t| (t.text.clone(), t.start, t.end)).collect()
}

#[test]
fn sentence_boundaries() {
    for c in ['。', '，', '！', '？', '；', '：', '\n', '\r', '\t', '．', '…', '“', '”', '‘', '’',
        '（', '）', '《', '》', '【', '】', '.', ',', '!', '?', ';', ':']
    {
        assert!(is_sentence_boundary(c), "{c:?} ends a sentence");
    }
    for c in ['a', ' ', '的', '-', '、', '"'] {
        assert!(!is_sentence_boundary(c), "{c:?} does not end a sentence");
    }
}

#[test]
fn utf8_lengths_from_the_first_byte() {
    assert_eq!(utf8_char_len(b'A'), 1);
    assert_eq!(utf8_char_len(0xC3), 2);
    assert_eq!(utf8_char_len(0xE4), 3);
    assert_eq!(utf8_char_len(0xF0), 4);
    assert_eq!(utf8_char_len(0x80), 1);
    assert_eq!(utf8_char_len(0xF8), 1);
    assert_eq!(utf8_byte_len("曾a"), 4);
    assert_eq!(utf8_byte_len(""), 0);
    let s = "中文 text。😀";
    assert_eq!(utf8_byte_len(s), s.len() as u128);
}

#[test]
fn sentences_carry_their_byte_offsets() {
    let text = "第一句。第二句，third!";
    let sents = split_sentences(text);
    let got: Vec<(usize, String)> = sents.iter().map(|s| (s.byte_start, s.text.clone())).collect();
    assert_eq!(
        got,
        vec![(0, "第一句".to_string()), (12, "第二句".to_string()), (24, "third".to_string())]
    );
    for s in &sents {
        assert_eq!(&text[s.byte_start..s.byte_start + s.text.len()], s.text);
    }
}

#[test]
fn empty_sentences_are_dropped() {
    let sents = split_sentences("。。a\n\nb");
    let got: Vec<(usize, String)> = sents.iter().map(|s| (s.byte_start, s.text.clone())).collect();
    assert_eq!(got, vec![(6, "a".to_string()), (9, "b".to_string())]);
    assert!(split_sentences("").is_empty());
    assert!(split_sentences("。，\n").is_empty());
}

#[test]
fn words_become_tokens_over_their_bytes() {
    let words: Vec<String> = ["Dogs", " ", "的", "世界"].iter().map(|w| w.to_string()).collect();
    let toks = sentence_tokens(&words, 10, true);
    assert_eq!(
        triples(&toks),
        vec![("dog".to_string(), 10, 14), ("世界".to_string(), 18, 24)]
    );
    let kept = sentence_tokens(&words, 10, false);
    assert_eq!(
        triples(&kept),
        vec![
            ("dog".to_string(), 10, 14),
            ("的".to_string(), 15, 18),
            ("世界".to_string(), 18, 24)
        ]
    );
}

#[test]
fn chinese_text_is_cut_into_words() {
    let t = JiebaSentenceTokenizer::new();
    let toks = t.tokenize_precise("我爱北京天安门");
    assert_eq!(
        triples(&toks),
        vec![
            ("爱".to_string(), 3, 6),
            ("北京".to_string(), 6, 12),
            ("天安门".to_string(), 12, 21)
        ]
    );
}

#[test]
fn stop_words_can_be_kept() {
    let mut t = JiebaSentenceTokenizer::new();
    t.disable_stopword();
    let toks = t.tokenize_precise("我爱北京天安门");
    assert_eq!(toks[0].text, "我");
    assert_eq!((toks[0].start, toks[0].end), (0, 3));
    let by_args = JiebaSentenceTokenizer::with_args(&vec!["disable_stopword".to_string()]);
    assert_eq!(triples(&by_args.tokenize_precise("我爱北京天安门")), triples(&toks));
    let default_args = JiebaSentenceTokenizer::with_args(&Vec::new());
    assert_eq!(default_args.tokenize_precise("我爱北京天安门").len(), 3);
}

#[test]
fn english_words_are_lowered_and_stemmed() {
    let t = JiebaSentenceTokenizer::new();
    let text = "我爱北京天安门。Running dogs";
    let toks = t.tokenize_precise(text);
    let tail: Vec<(String, usize, usize)> =
        triples(&toks).into_iter().filter(|(_, s, _)| *s >= 24).collect();
    assert_eq!(tail, vec![("run".to_string(), 24, 31), ("dog".to_string(), 32, 36)]);
    for tok in &toks {
        assert!(tok.start < tok.end && tok.end <= text.len());
        assert!(text.is_char_boundary(tok.start) && text.is_char_boundary(tok.end));
    }
}

#[test]
fn empty_and_punctuation_only_texts_give_no_tokens() {
    let t = JiebaSentenceTokenizer::new();
    assert!(t.tokenize_precise("").is_empty());
    assert!(t.tokenize_precise("。，！\n - ").is_empty());
}
