use vstd::prelude::*;
use vstd::string::StringExecFns;
use sha1::Digest;
use crate::text::{signed, signed_text};

verus! {

/// Where and how an uploaded image is kept.
#[derive(Debug)]
pub struct UploadImageOptions {
    pub folder: Option<String>,
    pub public_id: Option<String>,
    pub transformation: Option<String>,
}

/// The account of the image store.
#[derive(Debug)]
pub struct CloudinaryEnv {
    pub cloud_name: String,
    pub api_key: String,
    pub api_secret: String,
}

/// One text field of an upload form.
#[derive(Debug)]
pub struct FormField {
    pub name: String,
    pub value: String,
}

/// The SHA-1 digest of the UTF-8 bytes of `text`, in lower-case hexadecimal.
pub uninterp spec fn sha1_hex(text: Seq<char>) -> Seq<char>;

/// `sha1::Sha1::digest`, written out with `{:x}`: the digest of the bytes
/// of the text as hexadecimal digits. The contract only names the result; it
/// depends on the text alone.
#[verifier::external_body]
fn sha1_hex_digest(text: &str) -> (digest: String)
    ensures
        digest@ == sha1_hex(text@),
{
    format!("{:x}", sha1::Sha1::digest(text.as_bytes()))
}

/// `key=value`, after an `&` where `before` holds an entry already; `before`
/// itself where there is no value.
pub open spec fn with_entry(before: Seq<char>, key: Seq<char>, value: Option<String>) -> Seq<char> {
    match value {
        Some(text) => if before.len() == 0 {
            key + "="@ + text@
        } else {
            before + "&"@ + key + "="@ + text@
        },
        None => before,
    }
}

/// The text that is signed: the parameters of the upload but the resource
/// type, as `key=value` entries in the order of their keys, with `&` between
/// them.
pub open spec fn signing_text(option: UploadImageOptions, timestamp: Seq<char>) -> Seq<char> {
    let folder = with_entry(Seq::empty(), "folder"@, option.folder);
    let public_id = with_entry(folder, "public_id"@, option.public_id);
    let stamped = if public_id.len() == 0 {
        "timestamp="@ + timestamp
    } else {
        public_id + "&timestamp="@ + timestamp
    };
    with_entry(stamped, "transformation"@, option.transformation)
}

/// The fields of the upload form, as pairs of name and value: the resource
/// type, the timestamp, the options that are set, the signature and the key
/// of the account.
pub open spec fn form_fields(
    option: UploadImageOptions,
    api_key: Seq<char>,
    timestamp: Seq<char>,
    signature: Seq<char>,
) -> Seq<(Seq<char>, Seq<char>)> {
    let fixed = seq![("resource_type"@, "image"@), ("timestamp"@, timestamp)];
    let folder = match option.folder {
        Some(text) => fixed.push(("folder"@, text@)),
        None => fixed,
    };
    let public_id = match option.public_id {
        Some(text) => folder.push(("public_id"@, text@)),
        None => folder,
    };
    let transformation = match option.transformation {
        Some(text) => public_id.push(("transformation"@, text@)),
        None => public_id,
    };
    transformation.push(("signature"@, signature)).push(("api_key"@, api_key))
}

/// The names and values of `fields`.
pub open spec fn field_pairs(fields: Seq<FormField>) -> Seq<(Seq<char>, Seq<char>)> {
    Seq::new(fields.len(), |i: int| (fields[i].name@, fields[i].value@))
}

fn append_entry(text: &mut String, key: &str, value: &Option<String>)
    ensures
        final(text)@ == with_entry(old(text)@, key@, *value),
{
    proof {
        reveal_strlit("&");
        reveal_strlit("=");
    }
    match value {
        Some(found) => {
            let ghost before = text@;
            if !text.as_str().is_empty() {
                text.append("&");
            }
            text.append(key);
            text.append("=");
            text.append(found.as_str());
            assert(text@ =~= with_entry(before, key@, *value));
        },
        None => {},
    }
}

/// Writes the text to sign for an upload with the options `option` at the
/// time `timestamp`.
pub fn sign_string(option: &UploadImageOptions, timestamp: &str) -> (text: String)
    ensures
        text@ == signing_text(*option, timestamp@),
{
    proof {
        reveal_strlit("timestamp=");
        reveal_strlit("&timestamp=");
    }
    let mut text = String::new();
    append_entry(&mut text, "folder", &option.folder);
    append_entry(&mut text, "public_id", &option.public_id);
    let ghost before = text@;
    if text.as_str().is_empty() {
        text.append("timestamp=");
    } else {
        text.append("&timestamp=");
    }
    text.append(timestamp);
    assert(text@ =~= if before.len() == 0 {
        "timestamp="@ + timestamp@
    } else {
        before + "&timestamp="@ + timestamp@
    });
    append_entry(&mut text, "transformation", &option.transformation);
    text
}

fn push_field(fields: &mut Vec<FormField>, name: &str, value: String)
    ensures
        field_pairs(final(fields)@) == field_pairs(old(fields)@).push((name@, value@)),
{
    fields.push(FormField { name: String::from_str(name), value });
    assert(field_pairs(fields@) =~= field_pairs(old(fields)@).push((name@, value@)));
}

/// Lists the fields of the upload form once the signature is known.
pub fn signed_form(option: UploadImageOptions, api_key: &str, timestamp: &str, signature: String) -> (fields:
    Vec<FormField>)
    ensures
        field_pairs(fields@) == form_fields(option, api_key@, timestamp@, signature@),
{
    let mut fields: Vec<FormField> = Vec::new();
    assert(field_pairs(fields@) =~= Seq::empty());
    push_field(&mut fields, "resource_type", String::from_str("image"));
    push_field(&mut fields, "timestamp", String::from_str(timestamp));
    assert(field_pairs(fields@) =~= seq![("resource_type"@, "image"@), ("timestamp"@, timestamp@)]);
    match option.folder {
        Some(text) => push_field(&mut fields, "folder", text),
        None => {},
    }
    match option.public_id {
        Some(text) => push_field(&mut fields, "public_id", text),
        None => {},
    }
    match option.transformation {
        Some(text) => push_field(&mut fields, "transformation", text),
        None => {},
    }
    push_field(&mut fields, "signature", signature);
    push_field(&mut fields, "api_key", String::from_str(api_key));
    fields
}

/// Builds the signed upload form for the options `option`, the account
/// `cloud_env` and the time `timestamp_millis`, in milliseconds since the
/// epoch. The signature is the SHA-1 digest of the text to sign followed by
/// the secret of the account.
pub fn form_builder(option: UploadImageOptions, cloud_env: &CloudinaryEnv, timestamp_millis: i64) -> (fields:
    Vec<FormField>)
    ensures
        field_pairs(fields@) == form_fields(
            option,
            cloud_env.api_key@,
            signed_text(timestamp_millis as int),
            sha1_hex(
                signing_text(option, signed_text(timestamp_millis as int)) + cloud_env.api_secret@,
            ),
        ),
{
    let timestamp = signed(timestamp_millis);
    let mut to_sign = sign_string(&option, timestamp.as_str());
    to_sign.append(cloud_env.api_secret.as_str());
    let signature = sha1_hex_digest(to_sign.as_str());
    signed_form(option, cloud_env.api_key.as_str(), timestamp.as_str(), signature)
}

} // verus!
