use elegant_clipboard::translate::{
    baidu_lang, baidu_sign, baidu_text, check_microsoft_token, check_response, deeplx_text,
    field_text, google_free_text, google_free_url, microsoft_url, openai_text, openai_url,
    plan_translation, selection_shortcut, system_prompt, SelectionGate, TranslateCall,
    TranslateOptions,
};

fn no_options() -> TranslateOptions {
    TranslateOptions {
        deeplx_endpoint: None,
        google_api_key: None,
        baidu_app_id: None,
        baidu_secret_key: None,
        openai_endpoint: None,
        openai_api_key: None,
        openai_model: None,
    }
}

#[test]
fn microsoft_address_names_the_source_unless_auto() {
    assert_eq!(
        microsoft_url("auto", "zh"),
        "https://api-edge.cognitive.microsofttranslator.com/translate?api-version=3.0&to=zh"
    );
    assert_eq!(
        microsoft_url("en", "ja"),
        "https://api-edge.cognitive.microsofttranslator.com/translate?api-version=3.0&to=ja&from=en"
    );
    assert_eq!(
        microsoft_url("", "ja"),
        "https://api-edge.cognitive.microsofttranslator.com/translate?api-version=3.0&to=ja"
    );
}

#[test]
fn google_free_address_url_encodes_the_text() {
    assert_eq!(
        google_free_url("你好 a-b_c.d~e/f", "auto", "en"),
        "https://translate.googleapis.com/translate_a/single?client=gtx&sl=auto&tl=en&dt=t&q=%E4%BD%A0%E5%A5%BD%20a-b_c.d~e%2Ff"
    );
}

#[test]
fn baidu_languages_and_signature() {
    assert_eq!(baidu_lang("ja"), "jp");
    assert_eq!(baidu_lang("ko"), "kor");
    assert_eq!(baidu_lang("fr"), "fra");
    assert_eq!(baidu_lang("es"), "spa");
    assert_eq!(baidu_lang("ar"), "ara");
    assert_eq!(baidu_lang("vi"), "vie");
    assert_eq!(baidu_lang("zh"), "zh");
    assert_eq!(baidu_lang("xx"), "xx");
    assert_eq!(
        baidu_sign("2015063000000001", "apple", "1435660288", "12345678"),
        "f89f9594663708c1605f3d736d01d2d4"
    );
    assert_eq!(baidu_sign("id", "你好", "salt", "key"), "de1460588880e33e531280d2f71daa7e");
}

#[test]
fn openai_address_and_prompt() {
    assert_eq!(openai_url(""), "https://api.openai.com/v1/chat/completions");
    assert_eq!(openai_url("https://x.test/v1//"), "https://x.test/v1/chat/completions");
    assert_eq!(
        system_prompt("auto", "en"),
        "You are a professional translator. Translate the following text from auto-detected language to en. Only output the translation, no explanations."
    );
    assert_eq!(
        system_prompt("fr", "de"),
        "You are a professional translator. Translate the following text from fr to de. Only output the translation, no explanations."
    );
}

#[test]
fn plans_check_the_settings_each_provider_needs() {
    let o = no_options();
    assert_eq!(
        plan_translation("deeplx", "t", "auto", "en", &o, "1"),
        Err("请在设置中填写 DeepLX 请求地址".to_string())
    );
    assert_eq!(
        plan_translation("google_api", "t", "auto", "en", &o, "1"),
        Err("请在设置中填写 Google API Key".to_string())
    );
    assert_eq!(
        plan_translation("baidu", "t", "auto", "en", &o, "1"),
        Err("请在设置中填写百度翻译 APP ID 和密钥".to_string())
    );
    assert_eq!(
        plan_translation("openai", "t", "auto", "en", &o, "1"),
        Err("请在设置中填写 API Key".to_string())
    );
    assert_eq!(
        plan_translation("yandex", "t", "auto", "en", &o, "1"),
        Err("不支持的翻译提供者: yandex".to_string())
    );
}

#[test]
fn plans_describe_the_calls() {
    let mut o = no_options();
    o.deeplx_endpoint = Some("  http://localhost:1188/translate ".into());
    o.google_api_key = Some("K".into());
    o.baidu_app_id = Some("2015063000000001".into());
    o.baidu_secret_key = Some("12345678".into());
    o.openai_api_key = Some("sk".into());
    assert_eq!(
        plan_translation("deeplx", "hi", "auto", "DE", &o, "1"),
        Ok(TranslateCall::DeepLx {
            endpoint: "http://localhost:1188/translate".into(),
            text: "hi".into(),
            source_lang: "".into(),
            target_lang: "DE".into(),
        })
    );
    assert_eq!(
        plan_translation("google_api", "hi", "en", "fr", &o, "1"),
        Ok(TranslateCall::GoogleApi {
            url: "https://translation.googleapis.com/language/translate/v2?key=K".into(),
            text: "hi".into(),
            target: "fr".into(),
            source: Some("en".into()),
        })
    );
    assert_eq!(
        plan_translation("baidu", "apple", "en", "zh", &o, "1435660288"),
        Ok(TranslateCall::Baidu {
            params: vec![
                ("q".into(), "apple".into()),
                ("from".into(), "en".into()),
                ("to".into(), "zh".into()),
                ("appid".into(), "2015063000000001".into()),
                ("salt".into(), "1435660288".into()),
                ("sign".into(), "f89f9594663708c1605f3d736d01d2d4".into()),
            ],
        })
    );
    match plan_translation("openai", "hi", "auto", "en", &o, "1") {
        Ok(TranslateCall::OpenAi { url, model, .. }) => {
            assert_eq!(url, "https://api.openai.com/v1/chat/completions");
            assert_eq!(model, "gpt-4o-mini");
        }
        other => panic!("unexpected {other:?}"),
    }
    match plan_translation("microsoft", "hi", "auto", "en", &o, "1") {
        Ok(TranslateCall::Microsoft { text, .. }) => assert_eq!(text, "hi"),
        other => panic!("unexpected {other:?}"),
    }
}

#[test]
fn answers_become_text_or_errors() {
    assert_eq!(check_response("百度翻译", true, "200 OK", "{}".into()), Ok("{}".to_string()));
    assert_eq!(
        check_response("DeepLX", false, "404 Not Found", "nope".into()),
        Err("DeepLX错误 (404 Not Found): nope".to_string())
    );
    assert!(check_microsoft_token("short".into()).is_err());
    assert_eq!(
        check_microsoft_token("".into()),
        Err("获取微软翻译 token 异常: ".to_string())
    );
    let tok = "t".repeat(20);
    assert_eq!(check_microsoft_token(tok.clone()), Ok(tok));
    assert_eq!(field_text(None), Err("翻译结果格式异常".to_string()));
    assert_eq!(openai_text(Some("  Bonjour\n".into())), Ok("Bonjour".to_string()));
    assert_eq!(
        google_free_text(vec![Some("Hello ".into()), None, Some("world".into())]),
        Ok("Hello world".to_string())
    );
    assert_eq!(google_free_text(vec![None]), Err("翻译结果为空".to_string()));
    assert_eq!(
        baidu_text(Some("54001".into()), None, None),
        Err("百度翻译错误 (54001): 未知错误".to_string())
    );
    assert_eq!(baidu_text(None, None, None), Err("翻译结果格式异常".to_string()));
    assert_eq!(baidu_text(None, None, Some(vec![None])), Err("翻译结果为空".to_string()));
    assert_eq!(
        baidu_text(None, None, Some(vec![Some("苹果".into()), None, Some("梨".into())])),
        Ok("苹果\n梨".to_string())
    );
    assert_eq!(deeplx_text(Some("Hallo".into()), None, "{}"), Ok("Hallo".to_string()));
    assert_eq!(deeplx_text(Some("".into()), Some("Hi".into()), "{}"), Ok("Hi".to_string()));
    assert_eq!(
        deeplx_text(None, None, "{\"code\":500}"),
        Err("DeepLX 翻译结果异常: {\"code\":500}".to_string())
    );
}

#[test]
fn selection_shortcut_needs_switch_and_shortcut() {
    assert_eq!(selection_shortcut(Some("true"), Some("Ctrl+Shift+T")), Some("Ctrl+Shift+T".to_string()));
    assert_eq!(selection_shortcut(Some("false"), Some("Ctrl+Shift+T")), None);
    assert_eq!(selection_shortcut(None, Some("Ctrl+Shift+T")), None);
    assert_eq!(selection_shortcut(Some("true"), Some("")), None);
    assert_eq!(selection_shortcut(Some("true"), None), None);
    assert_eq!(selection_shortcut(Some("TRUE"), Some("Ctrl+T")), None);
}

#[test]
fn one_selection_translation_at_a_time() {
    let mut gate = SelectionGate::new();
    assert!(gate.try_start());
    assert!(!gate.try_start());
    assert!(!gate.try_start());
    gate.finish();
    assert!(gate.try_start());
}
