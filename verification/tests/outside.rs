use argon2::password_hash::{PasswordHasher, SaltString};
use mission_crew::authentication::{
    bearer_token, user_id_of, AuthenticationUseCase, Claims, LoginError, PasswordCheck, SESSION_SECONDS,
};
use mission_crew::brawler_model::BrawlerEntity;
use mission_crew::cloudinary::{form_builder, sign_string, signed_form, CloudinaryEnv, UploadImageOptions};
use sha1::Digest;

fn pairs(fields: Vec<mission_crew::cloudinary::FormField>) -> Vec<(String, String)> {
    fields.into_iter().map(|field| (field.name, field.value)).collect()
}

fn pair(name: &str, value: &str) -> (String, String) {
    (name.to_string(), value.to_string())
}

#[test]
fn text_to_sign_lists_the_parameters_by_key() {
    let all = UploadImageOptions {
        folder: Some("avatars".to_string()),
        public_id: Some("7".to_string()),
        transformation: Some("c_scale,w_256".to_string()),
    };
    assert_eq!(
        sign_string(&all, "1700000000000"),
        "folder=avatars&public_id=7&timestamp=1700000000000&transformation=c_scale,w_256"
    );
    let none = UploadImageOptions { folder: None, public_id: None, transformation: None };
    assert_eq!(sign_string(&none, "5"), "timestamp=5");
    let some = UploadImageOptions { folder: None, public_id: Some("9".to_string()), transformation: None };
    assert_eq!(sign_string(&some, "5"), "public_id=9&timestamp=5");
    let last = UploadImageOptions { folder: None, public_id: None, transformation: Some("t".to_string()) };
    assert_eq!(sign_string(&last, "5"), "timestamp=5&transformation=t");
    let empty = UploadImageOptions { folder: Some(String::new()), public_id: None, transformation: None };
    assert_eq!(sign_string(&empty, "5"), "folder=&timestamp=5");
}

#[test]
fn form_lists_every_field_once_the_signature_is_known() {
    let option = UploadImageOptions {
        folder: Some("avatars".to_string()),
        public_id: None,
        transformation: Some("c_scale".to_string()),
    };
    assert_eq!(
        pairs(signed_form(option, "key", "12", "abc".to_string())),
        vec![
            pair("resource_type", "image"),
            pair("timestamp", "12"),
            pair("folder", "avatars"),
            pair("transformation", "c_scale"),
            pair("signature", "abc"),
            pair("api_key", "key"),
        ]
    );
}

#[test]
fn form_is_signed_with_the_digest_of_text_and_secret() {
    let env = CloudinaryEnv {
        cloud_name: "cloud".to_string(),
        api_key: "key".to_string(),
        api_secret: "secret".to_string(),
    };
    let option = UploadImageOptions { folder: None, public_id: Some("7".to_string()), transformation: None };
    let fields = pairs(form_builder(option, &env, 1700000000000));
    let expected = format!("{:x}", sha1::Sha1::digest(b"public_id=7&timestamp=1700000000000secret"));
    assert_eq!(expected.len(), 40);
    assert_eq!(
        fields,
        vec![
            pair("resource_type", "image"),
            pair("timestamp", "1700000000000"),
            pair("public_id", "7"),
            pair("signature", &expected),
            pair("api_key", "key"),
        ]
    );
}

#[test]
fn known_digest_signs_a_known_text() {
    let env = CloudinaryEnv { cloud_name: String::new(), api_key: String::new(), api_secret: String::new() };
    let option = UploadImageOptions { folder: None, public_id: None, transformation: None };
    let fields = pairs(form_builder(option, &env, 0));
    let digest = format!("{:x}", sha1::Sha1::digest(b"timestamp=0"));
    assert_eq!(fields[2], pair("signature", &digest));
    assert_eq!(format!("{:x}", sha1::Sha1::digest(b"hello world")), "2aae6c35c94fcfb415dbe95f408b9ce91ee846ed");
}

fn brawler_with_password(password: &str) -> BrawlerEntity {
    let salt = SaltString::from_b64("c29tZXNhbHRzb21lc2FsdA").unwrap();
    let hash = argon2::Argon2::default().hash_password(password.as_bytes(), &salt).unwrap().to_string();
    BrawlerEntity {
        id: 31,
        username: "ann".to_string(),
        password: hash,
        display_name: "Ann".to_string(),
        tag: "0001".to_string(),
        avatar_url: None,
        created_at: 0,
        updated_at: 0,
    }
}

#[test]
fn right_password_opens_a_session_of_one_day() {
    let brawler = brawler_with_password("open sesame");
    let claims = AuthenticationUseCase::new().login(&brawler, "open sesame", 1_700_000_000).unwrap();
    assert_eq!(claims.sub, "31");
    assert_eq!(claims.iat, 1_700_000_000);
    assert_eq!(claims.exp, 1_700_086_400);
    assert_eq!(SESSION_SECONDS, 86_400);
}

#[test]
fn wrong_password_and_broken_hash_are_refused() {
    let brawler = brawler_with_password("open sesame");
    let use_case = AuthenticationUseCase::new();
    assert_eq!(use_case.login(&brawler, "open", 1).err(), Some(LoginError::InvalidPassword));
    let mut broken = brawler_with_password("open sesame");
    broken.password = "not a hash".to_string();
    assert_eq!(use_case.login(&broken, "open sesame", 1).err(), Some(LoginError::InvalidPasswordHash));
}

#[test]
fn claims_follow_the_password_check() {
    let use_case = AuthenticationUseCase::new();
    let claims = use_case.claims_after_check(-5, PasswordCheck::Matches, 10).unwrap();
    assert_eq!(claims.sub, "-5");
    assert_eq!(claims.iat, 10);
    assert_eq!(claims.exp, 86_410);
    assert_eq!(
        use_case.claims_after_check(1, PasswordCheck::Mismatch, 10).err(),
        Some(LoginError::InvalidPassword)
    );
    assert_eq!(
        use_case.claims_after_check(1, PasswordCheck::MalformedHash, 10).err(),
        Some(LoginError::InvalidPasswordHash)
    );
    assert_eq!(
        use_case.claims_after_check(1, PasswordCheck::Matches, u64::MAX - 86_399).err(),
        Some(LoginError::SessionOutOfRange)
    );
    assert_eq!(
        use_case.claims_after_check(1, PasswordCheck::Matches, u64::MAX - 86_400).unwrap().exp,
        u64::MAX
    );
}

#[test]
fn token_follows_the_word_bearer() {
    assert_eq!(bearer_token("Bearer abc.def"), Some("abc.def"));
    assert_eq!(bearer_token("Bearer "), Some(""));
    assert_eq!(bearer_token("Bearer"), None);
    assert_eq!(bearer_token("bearer abc"), None);
    assert_eq!(bearer_token("Basic abc"), None);
    assert_eq!(bearer_token(""), None);
    assert_eq!(bearer_token("Bearer é✓"), Some("é✓"));
    let claims = Claims { sub: "31".to_string(), exp: 2, iat: 1 };
    assert_eq!(user_id_of(&claims), Some(31));
    let broken = Claims { sub: "ann".to_string(), exp: 2, iat: 1 };
    assert_eq!(user_id_of(&broken), None);
}
