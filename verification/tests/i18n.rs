use ssr_core::Lang;

fn s(v: &str) -> Option<String> {
    Some(v.to_string())
}

#[test]
fn language_codes_and_toggle() {
    assert_eq!(Lang::Fr.code(), "fr");
    assert_eq!(Lang::En.code(), "en");
    assert_eq!(Lang::Fr.toggled(), Lang::En);
    assert_eq!(Lang::En.toggled(), Lang::Fr);
    assert_eq!(Lang::Fr.toggled().toggled(), Lang::Fr);
    assert_eq!(Lang::default(), Lang::Fr);
}

#[test]
fn progress_messages() {
    assert_eq!(Lang::Fr.msg_capturing(), "Capture de l'écran…");
    assert_eq!(Lang::En.msg_capturing(), "Capturing screen…");
    assert_eq!(Lang::Fr.msg_saving_image(), "Sauvegarde de l'image…");
    assert_eq!(Lang::En.msg_saving_image(), "Saving image…");
    assert_eq!(Lang::Fr.msg_building_html(), "Création du HTML…");
    assert_eq!(Lang::En.msg_building_html(), "Building HTML…");
    assert_eq!(Lang::Fr.msg_compressing(), "Compression…");
    assert_eq!(Lang::En.msg_compressing(), "Compressing…");
    assert_eq!(Lang::En.pick("a", "b"), "b");
    assert_eq!(Lang::Fr.pick("a", "b"), "a");
}

#[test]
fn language_detection_from_locale() {
    assert_eq!(Lang::detect(s("fr_FR.UTF-8"), None, None), Lang::Fr);
    assert_eq!(Lang::detect(s("FR_be"), None, None), Lang::Fr);
    assert_eq!(Lang::detect(s("en_US.UTF-8"), s("fr_FR"), None), Lang::En);
    assert_eq!(Lang::detect(None, s("fr_CA"), s("en_GB")), Lang::Fr);
    assert_eq!(Lang::detect(None, None, s("fR")), Lang::Fr);
    assert_eq!(Lang::detect(None, None, s("f")), Lang::En);
    assert_eq!(Lang::detect(None, None, None), Lang::En);
    assert_eq!(Lang::detect(s(""), s("fr_FR"), None), Lang::En);
}
