use clawbot_web::captcha::{
    captcha_response, char_to_index, check_answer, code_from_indices, draft_captcha,
    generate_captcha_code, handle_captcha, verify_captcha, CaptchaDraft, CaptchaStore, CAPTCHA_EXPIRY_NANOS,
};
use clawbot_web::reply::Data;

const T: u128 = 1_000_000;

fn issued(id: &str, code: &str) -> CaptchaStore {
    let mut store = CaptchaStore::new();
    let draft = CaptchaDraft { id: id.to_string(), code: code.to_string() };
    handle_captcha(&mut store, draft, &b"hi".to_vec(), T);
    store
}

fn refusal(store: &mut CaptchaStore, id: Option<&str>, code: Option<&str>, now: u128) -> String {
    let e = verify_captcha(store, id, code, now).unwrap_err();
    assert_eq!(e.status, 400);
    assert!(!e.body.success);
    e.body.message
}

#[test]
fn codes_have_six_characters_of_the_font() {
    for _ in 0..200 {
        let c = generate_captcha_code();
        assert_eq!(c.len(), 6);
        assert!(c.bytes().all(|b| b.is_ascii_digit() || b.is_ascii_uppercase()));
    }
    assert_ne!(generate_captcha_code(), generate_captcha_code());
}

#[test]
fn places_and_characters() {
    assert_eq!(code_from_indices(&vec![0, 9, 10, 35, 1, 11]), "09AZ1B");
    assert_eq!(char_to_index('0'), 0);
    assert_eq!(char_to_index('9'), 9);
    assert_eq!(char_to_index('A'), 10);
    assert_eq!(char_to_index('Z'), 35);
    assert_eq!(char_to_index('a'), 0);
    assert_eq!(char_to_index('?'), 0);
}

#[test]
fn captcha_is_handed_out_with_its_picture() {
    let mut store = CaptchaStore::new();
    let draft = draft_captcha();
    assert_eq!(draft.id.len(), 32);
    let id = draft.id.clone();
    let code = draft.code.clone();
    let r = handle_captcha(&mut store, draft, &b"hi".to_vec(), T);
    assert!(r.success);
    assert_eq!(r.message, "ok");
    match r.data {
        Some(Data::Captcha { captcha_id, captcha_image }) => {
            assert_eq!(captcha_id, id);
            assert_eq!(captcha_image, "data:image/png;base64,aGk=");
        }
        other => panic!("{other:?}"),
    }
    assert!(verify_captcha(&mut store, Some(&id), Some(&code), T).is_ok());
}

#[test]
fn answer_may_be_in_small_letters() {
    let mut store = issued("n", "A1B2C3");
    assert!(verify_captcha(&mut store, Some("n"), Some("a1b2c3"), T).is_ok());
}

#[test]
fn captcha_passes_once() {
    let mut store = issued("n", "A1B2C3");
    assert!(verify_captcha(&mut store, Some("n"), Some("A1B2C3"), T).is_ok());
    assert_eq!(refusal(&mut store, Some("n"), Some("A1B2C3"), T), "captcha already used");
}

#[test]
fn wrong_answer_spends_the_captcha() {
    let mut store = issued("n", "A1B2C3");
    assert_eq!(refusal(&mut store, Some("n"), Some("A1B2C4"), T), "incorrect captcha");
    assert_eq!(refusal(&mut store, Some("n"), Some("A1B2C3"), T), "captcha already used");
}

#[test]
fn answer_and_number_are_required() {
    let mut store = issued("n", "A1B2C3");
    let wanted = "captcha_id and captcha_code are required";
    assert_eq!(refusal(&mut store, None, Some("A1B2C3"), T), wanted);
    assert_eq!(refusal(&mut store, Some("n"), None, T), wanted);
    assert_eq!(refusal(&mut store, Some(""), Some("A1B2C3"), T), wanted);
    assert_eq!(refusal(&mut store, Some("n"), Some(""), T), wanted);
    assert!(verify_captcha(&mut store, Some("n"), Some("A1B2C3"), T).is_ok());
}

#[test]
fn unknown_captcha_is_refused() {
    let mut store = issued("n", "A1B2C3");
    assert_eq!(refusal(&mut store, Some("m"), Some("A1B2C3"), T), "invalid or expired captcha");
    assert!(verify_captcha(&mut store, Some("n"), Some("A1B2C3"), T).is_ok());
}

#[test]
fn captcha_expires_after_five_minutes() {
    let mut store = issued("n", "A1B2C3");
    assert!(verify_captcha(&mut store, Some("n"), Some("A1B2C3"), T + CAPTCHA_EXPIRY_NANOS).is_ok());
    let mut store = issued("n", "A1B2C3");
    let late = T + CAPTCHA_EXPIRY_NANOS + 1;
    assert_eq!(refusal(&mut store, Some("n"), Some("A1B2C3"), late), "captcha expired");
    assert_eq!(refusal(&mut store, Some("n"), Some("A1B2C3"), late), "invalid or expired captcha");
}

#[test]
fn stale_captchas_are_dropped() {
    let mut store = issued("n", "A1B2C3");
    store.purge(T + CAPTCHA_EXPIRY_NANOS - 1);
    let draft = CaptchaDraft { id: "m".to_string(), code: "ZZZZZZ".to_string() };
    handle_captcha(&mut store, draft, &Vec::new(), T + CAPTCHA_EXPIRY_NANOS - 1);
    store.purge(T + CAPTCHA_EXPIRY_NANOS);
    let now = T + CAPTCHA_EXPIRY_NANOS;
    assert_eq!(refusal(&mut store, Some("n"), Some("A1B2C3"), now), "invalid or expired captcha");
    assert!(verify_captcha(&mut store, Some("m"), Some("zzzzzz"), now).is_ok());
}

#[test]
fn clock_that_reads_less_counts_as_no_time() {
    let mut store = issued("n", "A1B2C3");
    store.purge(0);
    assert!(verify_captcha(&mut store, Some("n"), Some("A1B2C3"), 0).is_ok());
}

#[test]
fn answers_are_checked_as_given() {
    let mut store = issued("n", "A1B2C3");
    let e = check_answer(&mut store, "n", "a1b2c3", T).unwrap_err();
    assert_eq!((e.status, e.body.message.as_str()), (400, "incorrect captcha"));
    let mut store = issued("n", "A1B2C3");
    assert!(check_answer(&mut store, "n", "A1B2C3", T).is_ok());
    match captcha_response("n".to_string(), "xyz").data {
        Some(Data::Captcha { captcha_image, .. }) => {
            assert_eq!(captcha_image, "data:image/png;base64,xyz");
        }
        other => panic!("{other:?}"),
    }
}

#[test]
fn pictures_are_written_in_base64() {
    let cases: [(&[u8], &str); 6] = [
        (b"", ""),
        (b"f", "Zg=="),
        (b"fo", "Zm8="),
        (b"foo", "Zm9v"),
        (b"foobar", "Zm9vYmFy"),
        (&[0xfb, 0xff, 0x3e, 0xff], "+/8+/w=="),
    ];
    for (bytes, encoded) in cases {
        let mut store = CaptchaStore::new();
        let r = handle_captcha(&mut store, draft_captcha(), &bytes.to_vec(), T);
        match r.data {
            Some(Data::Captcha { captcha_image, .. }) => {
                assert_eq!(captcha_image, format!("data:image/png;base64,{encoded}"));
            }
            other => panic!("{other:?}"),
        }
    }
}
