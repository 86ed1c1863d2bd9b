use bcdown::network::{
    fix_episode_title, image_token_request, image_url, normalize_episode, qr_status,
    session_secret, session_status, EpisodeInfo, QRStatus, SessionStatus,
};
use bcdown::text::{find, stands_at, trim_chars};

fn episode(title: &str, locked: bool, free: bool) -> EpisodeInfo {
    EpisodeInfo { title: title.to_string(), id: 5, is_locked: locked, is_in_free: free, ord: 12 }
}

fn chars(s: &str) -> Vec<char> {
    s.chars().collect()
}

#[test]
fn fix_episode_title_replaces_what_a_file_name_cannot_hold() {
    assert_eq!(fix_episode_title("a/b\\c:d*e?f\"g<h>i|j"), "a_b_c_d_e_f_g_h_i_j");
    assert_eq!(fix_episode_title("plain title 第1话"), "plain title 第1话");
    assert_eq!(fix_episode_title(""), "");
    assert_eq!(fix_episode_title("???"), "___");
    assert_eq!(fix_episode_title("a.b-c_d"), "a.b-c_d");
}

#[test]
fn normalize_episode_trims_and_fixes_the_title() {
    let kept = normalize_episode(episode("  What? \n", false, false), "12");
    assert_eq!(kept.title, "What_");
    assert_eq!(kept.id, 5);
    assert_eq!(kept.ord, 12);
    assert!(!kept.is_locked);
    assert!(!kept.is_in_free);
    let kept = normalize_episode(episode("a / b", true, false), "12");
    assert_eq!(kept.title, "a _ b");
    assert!(kept.is_locked);
}

#[test]
fn normalize_episode_makes_a_title_from_the_number() {
    assert_eq!(normalize_episode(episode("", false, false), "12").title, "第12话");
    assert_eq!(normalize_episode(episode(" \t\u{3000} ", false, false), "1.5").title, "第1.5话");
    assert_eq!(normalize_episode(episode("", false, false), "").title, "第话");
    assert_eq!(normalize_episode(episode("", false, false), "1/2").title, "第1_2话");
}

#[test]
fn normalize_episode_unlocks_what_is_free() {
    let kept = normalize_episode(episode("t", true, true), "1");
    assert!(!kept.is_locked);
    assert!(kept.is_in_free);
    let kept = normalize_episode(episode("t", false, true), "1");
    assert!(!kept.is_locked);
    let kept = normalize_episode(episode("t", true, false), "1");
    assert!(kept.is_locked);
}

#[test]
fn trim_chars_trims_as_the_standard_trim_does() {
    for s in ["", " ", "a", " a", "a ", "  a b  ", "\t\n x \r\n", "\u{3000}全角\u{3000}", "\u{a0}x", "a\u{2003}"] {
        let got: String = trim_chars(&chars(s)).iter().collect();
        assert_eq!(got, s.trim());
    }
}

#[test]
fn session_status_reads_the_code() {
    assert_eq!(session_status(0), SessionStatus::LoggedIn);
    assert_eq!(session_status(-101), SessionStatus::LoggedOut);
    assert_eq!(session_status(1), SessionStatus::Unknown);
    assert_eq!(session_status(-1), SessionStatus::Unknown);
    assert_eq!(session_status(101), SessionStatus::Unknown);
}

#[test]
fn session_secret_stands_behind_its_mark() {
    let url = "https://passport.example/crossDomain?DedeUserID=1&SESSDATA=abc%2C123*31&bili_jct=x";
    assert_eq!(session_secret(url), Some("abc%2C123*31".to_string()));
    assert_eq!(session_secret("SESSDATA=abc"), Some("abc".to_string()));
    assert_eq!(session_secret("SESSDATA="), Some("".to_string()));
    assert_eq!(session_secret("x?SESSDATA=a&SESSDATA=b"), Some("a".to_string()));
    assert_eq!(session_secret("x?SESSDATA=aSESSDATA=b&c"), Some("a".to_string()));
    assert_eq!(session_secret("x?sessdata=a"), None);
    assert_eq!(session_secret(""), None);
    for url in ["SESSDATA=a&b", "a=1&SESSDATA=zz", "SESSDATA=SESSDATA=x", "qSESSDATA=1&2&3"] {
        let plain = url.split("SESSDATA=").collect::<Vec<&str>>()[1]
            .split('&')
            .collect::<Vec<&str>>()[0]
            .to_string();
        assert_eq!(session_secret(url), Some(plain));
    }
}

#[test]
fn qr_status_reads_code_and_address() {
    assert!(matches!(qr_status(86101, ""), Some(QRStatus::NotScan)));
    assert!(matches!(qr_status(86090, ""), Some(QRStatus::Scanning)));
    assert!(matches!(qr_status(86038, ""), Some(QRStatus::Invalid)));
    match qr_status(0, "https://x/?a=1&SESSDATA=secret&b=2") {
        Some(QRStatus::Complete(secret)) => assert_eq!(secret, "secret"),
        other => panic!("unexpected {:?}", other),
    }
    assert!(qr_status(0, "https://x/?a=1").is_none());
    assert!(qr_status(1, "SESSDATA=x").is_none());
    assert!(qr_status(-101, "").is_none());
}

#[test]
fn image_token_request_quotes_and_joins() {
    assert_eq!(image_token_request(&Vec::new()), "[]");
    assert_eq!(image_token_request(&vec!["/a/1.jpg".to_string()]), "[\"/a/1.jpg\"]");
    assert_eq!(
        image_token_request(&vec!["/a/1.jpg".to_string(), "/a/2.jpg".to_string(), "".to_string()]),
        "[\"/a/1.jpg\",\"/a/2.jpg\",\"\"]"
    );
    let paths: Vec<String> = (0..5).map(|i| format!("/p/{}.jpg", i)).collect();
    let quoted: Vec<String> = paths.iter().map(|x| format!("\"{}\"", x)).collect();
    assert_eq!(image_token_request(&paths), format!("[{}]", quoted.join(",")));
}

#[test]
fn image_url_carries_the_token() {
    assert_eq!(image_url("https://cdn.example/a.jpg", "tok"), "https://cdn.example/a.jpg?token=tok");
    assert_eq!(image_url("", ""), "?token=");
}

#[test]
fn find_gives_the_first_place_of_a_pattern() {
    assert_eq!(find(&chars("abcabc"), &chars("bc"), 0), Some(1));
    assert_eq!(find(&chars("abcabc"), &chars("bc"), 2), Some(4));
    assert_eq!(find(&chars("abcabc"), &chars("bc"), 5), None);
    assert_eq!(find(&chars("abcabc"), &chars("cb"), 0), None);
    assert_eq!(find(&chars("abc"), &chars(""), 1), Some(1));
    assert_eq!(find(&chars(""), &chars("a"), 0), None);
    assert_eq!(find(&chars("aaa"), &chars("aa"), 0), Some(0));
    assert!(stands_at(&chars("abc"), &chars("bc"), 1));
    assert!(!stands_at(&chars("abc"), &chars("bc"), 2));
    assert!(!stands_at(&chars("abc"), &chars("bc"), 7));
    for (s, p) in [("hello world", "o w"), ("mcmc", "mc"), ("xyz", "z"), ("xyz", "xyzz")] {
        assert_eq!(find(&chars(s), &chars(p), 0), s.find(p));
    }
}

#[test]
fn kept_episode_has_a_title_fit_for_a_file_name() {
    for title in ["", "  ", "a", " a/b ", "\\", "?", "  ?  ", "<>|\":*", "plain", "\t"] {
        for ord_text in ["", "1", "1.5", "a/b"] {
            let kept = normalize_episode(episode(title, true, true), ord_text);
            assert!(!kept.title.is_empty());
            assert!(!kept.title.chars().any(|c| "/\\:*?\"<>|".contains(c)));
            assert!(!(kept.is_locked && kept.is_in_free));
        }
    }
}
