//! The persisted settings and the sealing of provider API keys.

use vstd::prelude::*;
use vstd::string::StringSliceAdditionalSpecFns;
use vstd::utf8::{decode_utf8, encode_utf8, valid_utf8};
use crate::base64::{
    all_digits, base64_decode, base64_decode_defined, base64_decode_digits, base64_encode,
    base64_encode_spec, lemma_base64_roundtrip, strip_padding,
};
use crate::crypto::{
    aes256gcm_ciphertext, aes256gcm_decrypt, aes256gcm_encrypt, aes256gcm_plaintext,
    aes_gcm_max_plaintext, random_nonce,
};
use crate::text::{concat_bytes, copy_range, owned, string_from_utf8, utf8_error_message};

verus! {

/// The user's settings, as stored in `config.json`.
pub struct AppConfig {
    pub ptt_key: u32,
    pub ptt_modifiers: u32,
    pub vad_toggle_key: u32,
    pub vad_toggle_modifiers: u32,
    pub model: String,
    pub language: String,
    pub prompt: String,
    pub correction_mode: String,
    pub correction_endpoint: String,
    pub correction_model: String,
    pub interface_lang: String,
    pub cloud_provider: String,
    pub version: String,
}

impl Default for AppConfig {
    /// Control as push-to-talk key, no VAD hotkey, the `base` model with
    /// language detection, correction off, the local provider.
    fn default() -> (r: Self)
        ensures
            r.ptt_key == 0x11,
            r.ptt_modifiers == 0,
            r.vad_toggle_key == 0,
            r.vad_toggle_modifiers == 0,
            r.model@ == "base"@,
            r.language@ == "auto"@,
            r.prompt@ == Seq::<char>::empty(),
            r.correction_mode@ == "off"@,
            r.correction_endpoint@ == "http://localhost:11434"@,
            r.correction_model@ == "llama3.2:1b"@,
            r.interface_lang@ == "en"@,
            r.cloud_provider@ == "local"@,
            r.version@ == "1.6.0"@,
    {
        AppConfig {
            ptt_key: 0x11,
            ptt_modifiers: 0,
            vad_toggle_key: 0,
            vad_toggle_modifiers: 0,
            model: owned("base"),
            language: owned("auto"),
            prompt: String::new(),
            correction_mode: owned("off"),
            correction_endpoint: owned("http://localhost:11434"),
            correction_model: owned("llama3.2:1b"),
            interface_lang: owned("en"),
            cloud_provider: owned("local"),
            version: owned("1.6.0"),
        }
    }
}

/// The 32-byte key derived from a machine identity: its first 32 bytes,
/// then, where it is shorter, the byte `0x53 ^ i` at each position `i`.
pub open spec fn machine_key_spec(uid: Seq<u8>) -> Seq<u8> {
    Seq::new(32, |i: int| if i < uid.len() { uid[i] } else { 0x53u8 ^ (i as u8) })
}

/// Derives the key material from the bytes of a machine identity.
pub fn machine_key_from_uid(uid: &str) -> (r: [u8; 32])
    ensures
        r@ == machine_key_spec(uid.spec_bytes()),
{
    let bytes = uid.as_bytes();
    let mut key = [0u8; 32];
    let mut i: usize = 0;
    while i < 32
        invariant
            bytes@ == uid.spec_bytes(),
            i <= 32,
            forall|k: int| 0 <= k < i ==> key@[k] == machine_key_spec(bytes@)[k],
        decreases 32 - i,
    {
        if i < bytes.len() {
            key[i] = bytes[i];
        } else {
            key[i] = 0x53u8 ^ (i as u8);
        }
        i = i + 1;
    }
    assert(key@ =~= machine_key_spec(bytes@));
    key
}


/// The identity used on Windows when the machine's own cannot be read.
pub open spec fn fallback_uid() -> Seq<u8> {
    "speakyfi-fallback-key".spec_bytes()
}

/// The key material on Windows: derived from the machine identity, or from
/// a fixed fallback identity where the machine's could not be read.
pub fn derive_machine_key(uid: Option<&str>) -> (r: [u8; 32])
    ensures
        r@ == machine_key_spec(
            match uid {
                Some(u) => u.spec_bytes(),
                None => fallback_uid(),
            },
        ),
{
    match uid {
        Some(u) => machine_key_from_uid(u),
        None => machine_key_from_uid("speakyfi-fallback-key"),
    }
}

/// The fixed key material used on other platforms (development and CI).
pub fn dev_machine_key() -> (r: [u8; 32])
    ensures
        r@ == "speakyfi-dev-key-placeholder----".spec_bytes(),
{
    let lit = "speakyfi-dev-key-placeholder----";
    let r = machine_key_from_uid(lit);
    proof {
        reveal_strlit("speakyfi-dev-key-placeholder----");
        vstd::string::is_ascii_spec_bytes(lit);
        assert(vstd::string::is_ascii(lit));
        assert(lit.spec_bytes().len() == 32);
        assert(r@ =~= lit.spec_bytes());
    }
    r
}


/// A result of strings, by the views of its strings.
pub open spec fn result_view(r: Result<String, String>) -> Result<Seq<char>, Seq<char>> {
    match r {
        Ok(s) => Ok(s@),
        Err(e) => Err(e@),
    }
}

/// An optional string slice, by its view.
pub open spec fn option_view(o: Option<&str>) -> Option<Seq<char>> {
    match o {
        Some(s) => Some(s@),
        None => None,
    }
}

/// The key-store entry of an API key sealed with a nonce: the nonce
/// followed by the AES-256-GCM ciphertext of the key's UTF-8 bytes, in
/// base64.
pub open spec fn sealed_entry(machine_key: Seq<u8>, nonce: Seq<u8>, key: Seq<char>) -> Seq<char> {
    base64_encode_spec(nonce + aes256gcm_ciphertext(machine_key, nonce, encode_utf8(key)))
}

/// What reading a key-store entry gives: the key, or the message of the
/// first step that fails (no entry, bad base64, too short to hold a nonce,
/// authentication failure, plaintext not UTF-8).
pub open spec fn opened_key(machine_key: Seq<u8>, entry: Option<Seq<char>>) -> Result<
    Seq<char>,
    Seq<char>,
> {
    match entry {
        None => Err("Key not found"@),
        Some(e) => if !all_digits(strip_padding(e)) {
            Err("invalid base64"@)
        } else {
            let c = base64_decode_digits(strip_padding(e));
            if c.len() < 12 {
                Err("Invalid key data"@)
            } else {
                match aes256gcm_plaintext(machine_key, c.take(12), c.skip(12)) {
                    None => Err("Decryption failed"@),
                    Some(p) => if valid_utf8(p) {
                        Ok(decode_utf8(p))
                    } else {
                        Err(utf8_error_message(p))
                    },
                }
            }
        },
    }
}

/// Seals an API key under the machine key with the given 12-byte nonce.
/// Whatever it returns is read back as the same key.
pub fn seal_api_key_with_nonce(machine_key: &[u8], nonce: &[u8], key: &str) -> (r: Result<
    String,
    String,
>)
    requires
        machine_key@.len() == 32,
        nonce@.len() == 12,
    ensures
        r is Ok <==> key.spec_bytes().len() <= aes_gcm_max_plaintext(),
        r matches Ok(e) ==> e@ == sealed_entry(machine_key@, nonce@, key@),
        r matches Ok(e) ==> base64_decode_defined(e@),
        r matches Ok(e) ==> opened_key(machine_key@, Some(e@)) == Ok::<Seq<char>, Seq<char>>(
            key@,
        ),
        r matches Err(m) ==> m@ == "aead::Error"@,
{
    let ciphertext = match aes256gcm_encrypt(machine_key, nonce, key.as_bytes()) {
        Ok(c) => c,
        Err(_) => {
            proof {
                reveal_strlit("aead::Error");
            }
            return Err(owned("aead::Error"));
        },
    };
    let combined = concat_bytes(nonce, ciphertext.as_slice());
    let entry = base64_encode(combined.as_slice());
    proof {
        let c = combined@;
        lemma_base64_roundtrip(c);
        assert(c.take(12) =~= nonce@);
        assert(c.skip(12) =~= ciphertext@);
        vstd::utf8::encode_utf8_valid_utf8(key@);
        vstd::utf8::encode_utf8_decode_utf8(key@);
    }
    Ok(entry)
}

/// The error when the operating system's generator gives no nonce.
pub open spec fn nonce_failed_message() -> Seq<char> {
    "Failed to generate a nonce"@
}

/// Seals an API key under the machine key with a fresh random nonce.
/// Whatever it returns is read back as the same key. It fails where the
/// key is too long for AES-GCM, or where the generator gives no nonce.
pub fn seal_api_key(machine_key: &[u8], key: &str) -> (r: Result<String, String>)
    requires
        machine_key@.len() == 32,
    ensures
        r is Ok ==> key.spec_bytes().len() <= aes_gcm_max_plaintext(),
        key.spec_bytes().len() > aes_gcm_max_plaintext() ==> r is Err,
        r matches Ok(e) ==> exists|nonce: Seq<u8>|
            nonce.len() == 12 && e@ == #[trigger] sealed_entry(machine_key@, nonce, key@),
        r matches Ok(e) ==> base64_decode_defined(e@),
        r matches Ok(e) ==> opened_key(machine_key@, Some(e@)) == Ok::<Seq<char>, Seq<char>>(
            key@,
        ),
        r matches Err(m) ==> m@ == nonce_failed_message() || (m@ == "aead::Error"@
            && key.spec_bytes().len() > aes_gcm_max_plaintext()),
{
    let nonce = match random_nonce() {
        Ok(n) => n,
        Err(_) => {
            proof {
                reveal_strlit("Failed to generate a nonce");
            }
            return Err(owned("Failed to generate a nonce"));
        },
    };
    seal_api_key_with_nonce(machine_key, nonce.as_slice(), key)
}

/// Reads an API key back from its key-store entry (`None` where the store
/// has no text under the provider's name).
pub fn open_api_key(machine_key: &[u8], entry: Option<&str>) -> (r: Result<String, String>)
    requires
        machine_key@.len() == 32,
        entry matches Some(e) ==> base64_decode_defined(e@),
    ensures
        result_view(r) == opened_key(machine_key@, option_view(entry)),
{
    proof {
        reveal_strlit("Key not found");
        reveal_strlit("invalid base64");
        reveal_strlit("Invalid key data");
        reveal_strlit("Decryption failed");
    }
    let encoded = match entry {
        Some(e) => e,
        None => {
            return Err(owned("Key not found"));
        },
    };
    let combined = match base64_decode(encoded) {
        Ok(c) => c,
        Err(e) => {
            return Err(owned(e));
        },
    };
    if combined.len() < 12 {
        return Err(owned("Invalid key data"));
    }
    let nonce = copy_range(combined.as_slice(), 0, 12);
    let ciphertext = copy_range(combined.as_slice(), 12, combined.len());
    proof {
        assert(nonce@ =~= combined@.take(12));
        assert(ciphertext@ =~= combined@.skip(12));
    }
    let plaintext = match aes256gcm_decrypt(machine_key, nonce.as_slice(), ciphertext.as_slice()) {
        Ok(p) => p,
        Err(_) => {
            return Err(owned("Decryption failed"));
        },
    };
    string_from_utf8(plaintext)
}

/// An optional string, by its view.
pub open spec fn string_option_view(o: Option<String>) -> Option<Seq<char>> {
    match o {
        Some(s) => Some(s@),
        None => None,
    }
}

/// The result of a key-store lookup, by the views of its strings.
pub open spec fn lookup_view(r: Result<Option<String>, String>) -> Result<
    Option<Seq<char>>,
    Seq<char>,
> {
    match r {
        Ok(o) => Ok(string_option_view(o)),
        Err(e) => Err(e@),
    }
}

/// What the key store (the JSON text of `keys.dat`) holds under a
/// provider: the string there, `None` where there is no member of that name
/// or it is not a string (or the JSON is not an object), or the parser's
/// message where the text is not JSON.
pub uninterp spec fn key_store_lookup(store: Seq<char>, provider: Seq<char>) -> Result<
    Option<Seq<char>>,
    Seq<char>,
>;

/// The kind of JSON value that a key store's text holds.
#[derive(PartialEq, Eq, Structural, Clone, Copy, Debug)]
pub enum KeyStoreShape {
    /// A JSON object: the providers' entries are its members.
    Object,
    /// `null`.
    Null,
    /// Any other JSON value (array, string, number, boolean).
    Other,
}

/// The kind of JSON value that the key store's text holds, or the parser's
/// message where the text is not JSON.
pub uninterp spec fn key_store_shape(store: Seq<char>) -> Result<KeyStoreShape, Seq<char>>;

/// A shape result, by the view of its message.
pub open spec fn shape_view(r: Result<KeyStoreShape, String>) -> Result<KeyStoreShape, Seq<char>> {
    match r {
        Ok(k) => Ok(k),
        Err(e) => Err(e@),
    }
}

/// The JSON text of the key store once `entry` is stored under `provider`
/// in `base`, a store whose JSON is an object (`None`: an empty object).
pub uninterp spec fn key_store_insert(
    base: Option<Seq<char>>,
    provider: Seq<char>,
    entry: Seq<char>,
) -> Seq<char>;

/// The error when the key store's JSON is neither an object nor `null`.
pub open spec fn store_not_object_message() -> Seq<char> {
    "Key store is not a JSON object"@
}

/// The object store that a new entry goes into: the store itself where its
/// JSON is an object; an empty one (`None`) where there is no store, its
/// text does not parse, or it is `null`; an error for any other JSON value.
pub open spec fn store_base(store: Option<Seq<char>>) -> Result<Option<Seq<char>>, Seq<char>> {
    match store {
        None => Ok(None),
        Some(s) => match key_store_shape(s) {
            Ok(KeyStoreShape::Object) => Ok(Some(s)),
            Ok(KeyStoreShape::Other) => Err(store_not_object_message()),
            _ => Ok(None),
        },
    }
}

/// Whether the store holds `entry` as the string under `provider`.
pub open spec fn holds_entry(store: Seq<char>, provider: Seq<char>, entry: Seq<char>) -> bool {
    key_store_lookup(store, provider) == Ok::<Option<Seq<char>>, Seq<char>>(Some(entry))
}

/// Whether the store reads, under every name but `provider`, as the object
/// store `base` did.
pub open spec fn keeps_other_entries(store: Seq<char>, base: Option<Seq<char>>, provider: Seq<char>) -> bool {
    forall|p: Seq<char>|
        p != provider ==> #[trigger] key_store_lookup(store, p) == previous_entry(base, p)
}

/// What a provider's entry reads as in an object store (`None`: empty).
pub open spec fn previous_entry(base: Option<Seq<char>>, provider: Seq<char>) -> Result<
    Option<Seq<char>>,
    Seq<char>,
> {
    match base {
        Some(s) => key_store_lookup(s, provider),
        None => Ok(None),
    }
}

/// `serde_json::from_str` of the store into a `serde_json::Value`, then
/// `Value::index` by the provider's name and `Value::as_str`. Claimed: the
/// result is the named lookup, the parser's error given by its `Display`
/// text.
#[verifier::external_body]
fn key_store_entry(store: &str, provider: &str) -> (r: Result<Option<String>, String>)
    ensures
        lookup_view(r) == key_store_lookup(store@, provider@),
{
    match serde_json::from_str::<serde_json::Value>(store) {
        Ok(v) => Ok(v[provider].as_str().map(String::from)),
        Err(e) => Err(e.to_string()),
    }
}

/// `serde_json::from_str` of the store into a `serde_json::Value`, told
/// apart by variant. Claimed: the result is the named shape, the parser's
/// error given by its `Display` text.
#[verifier::external_body]
fn key_store_kind(store: &str) -> (r: Result<KeyStoreShape, String>)
    ensures
        shape_view(r) == key_store_shape(store@),
{
    match serde_json::from_str::<serde_json::Value>(store) {
        Ok(serde_json::Value::Object(_)) => Ok(KeyStoreShape::Object),
        Ok(serde_json::Value::Null) => Ok(KeyStoreShape::Null),
        Ok(_) => Ok(KeyStoreShape::Other),
        Err(e) => Err(e.to_string()),
    }
}

/// `serde_json::from_str` of an object store into a `serde_json::Map`
/// (`Map::new` for none), `Map::insert` of the entry as a JSON string, and
/// `Value::to_string` of the object. The store must hold a JSON object, so
/// the parse succeeds (its error arm is never taken). Claimed: the result
/// is the named insertion; it is an object store that reads back, under the
/// provider, as the entry, and under every other name as `base` did.
#[verifier::external_body]
fn key_store_with(base: Option<&str>, provider: &str, entry: &str) -> (r: String)
    requires
        base matches Some(s) ==> key_store_shape(s@) matches Ok(KeyStoreShape::Object),
    ensures
        r@ == key_store_insert(option_view(base), provider@, entry@),
        key_store_shape(r@) matches Ok(KeyStoreShape::Object),
        holds_entry(r@, provider@, entry@),
        keeps_other_entries(r@, option_view(base), provider@),
{
    let mut map: serde_json::Map<String, serde_json::Value> = match base {
        Some(s) => serde_json::from_str(s).unwrap_or_default(),
        None => serde_json::Map::new(),
    };
    map.insert(provider.to_string(), serde_json::Value::String(entry.to_string()));
    serde_json::Value::Object(map).to_string()
}

/// What loading a provider's API key gives: an empty key where there is no
/// key store; the parser's message where its text is not JSON; `invalid
/// base64` where the entry's digits end in a lone digit; otherwise what
/// reading the entry gives.
pub open spec fn loaded_key(machine_key: Seq<u8>, store: Option<Seq<char>>, provider: Seq<char>) -> Result<
    Seq<char>,
    Seq<char>,
> {
    match store {
        None => Ok(Seq::empty()),
        Some(s) => match key_store_lookup(s, provider) {
            Err(e) => Err(e),
            Ok(entry) => if entry matches Some(e) && !base64_decode_defined(e) {
                Err("invalid base64"@)
            } else {
                opened_key(machine_key, entry)
            },
        },
    }
}

/// Loads a provider's API key from the text of the key store (`None`
/// where there is no store).
pub fn load_api_key_from_store(machine_key: &[u8], store: Option<&str>, provider: &str) -> (r:
    Result<String, String>)
    requires
        machine_key@.len() == 32,
    ensures
        result_view(r) == loaded_key(machine_key@, option_view(store), provider@),
{
    let text = match store {
        Some(t) => t,
        None => {
            return Ok(String::new());
        },
    };
    let entry = match key_store_entry(text, provider) {
        Ok(e) => e,
        Err(e) => {
            return Err(e);
        },
    };
    match entry {
        Some(e) => {
            if !crate::base64::base64_decodable(e.as_str()) {
                proof {
                    reveal_strlit("invalid base64");
                }
                return Err(owned("invalid base64"));
            }
            open_api_key(machine_key, Some(e.as_str()))
        },
        None => open_api_key(machine_key, None),
    }
}

/// What storing a key gives, for a given nonce: `aead::Error` where the
/// key is too long for AES-GCM, the error of a store that is not a JSON
/// object, or else the store with the sealed entry under the provider.
pub open spec fn saved_store(
    machine_key: Seq<u8>,
    nonce: Seq<u8>,
    store: Option<Seq<char>>,
    provider: Seq<char>,
    key: Seq<char>,
) -> Result<Seq<char>, Seq<char>> {
    if encode_utf8(key).len() > aes_gcm_max_plaintext() {
        Err("aead::Error"@)
    } else {
        match store_base(store) {
            Err(m) => Err(m),
            Ok(b) => Ok(key_store_insert(b, provider, sealed_entry(machine_key, nonce, key))),
        }
    }
}

/// Seals an API key with the given 12-byte nonce and stores it under the
/// provider in the key store's text (`None` where there is no store yet);
/// returns the new text. Whatever it returns reads back, under the
/// provider, as the same key, and under every other provider as before.
pub fn save_api_key_to_store_with_nonce(
    machine_key: &[u8],
    nonce: &[u8],
    store: Option<&str>,
    provider: &str,
    key: &str,
) -> (r: Result<String, String>)
    requires
        machine_key@.len() == 32,
        nonce@.len() == 12,
    ensures
        result_view(r) == saved_store(
            machine_key@,
            nonce@,
            option_view(store),
            provider@,
            key@,
        ),
        r matches Ok(t) ==> loaded_key(machine_key@, Some(t@), provider@) == Ok::<
            Seq<char>,
            Seq<char>,
        >(key@),
        r matches Ok(t) ==> (store_base(option_view(store)) matches Ok(b) && keeps_other_entries(
            t@,
            b,
            provider@,
        )),
{
    let entry = match seal_api_key_with_nonce(machine_key, nonce, key) {
        Ok(e) => e,
        Err(m) => {
            return Err(m);
        },
    };
    let base: Option<&str> = match store {
        None => None,
        Some(s) => match key_store_kind(s) {
            Ok(KeyStoreShape::Object) => Some(s),
            Ok(KeyStoreShape::Other) => {
                proof {
                    reveal_strlit("Key store is not a JSON object");
                }
                return Err(owned("Key store is not a JSON object"));
            },
            _ => None,
        },
    };
    Ok(key_store_with(base, provider, entry.as_str()))
}

/// Seals an API key with a fresh random nonce and stores it under the
/// provider in the key store's text (`None` where there is no store yet);
/// returns the new text. It fails where the generator gives no nonce;
/// otherwise it gives what `save_api_key_to_store_with_nonce` gives for the
/// nonce drawn.
pub fn save_api_key_to_store(machine_key: &[u8], store: Option<&str>, provider: &str, key: &str) -> (r:
    Result<String, String>)
    requires
        machine_key@.len() == 32,
    ensures
        (r matches Err(m) && m@ == nonce_failed_message()) || exists|nonce: Seq<u8>|
            nonce.len() == 12 && result_view(r) == #[trigger] saved_store(
                machine_key@,
                nonce,
                option_view(store),
                provider@,
                key@,
            ),
        key.spec_bytes().len() > aes_gcm_max_plaintext() ==> r is Err,
        r matches Ok(t) ==> loaded_key(machine_key@, Some(t@), provider@) == Ok::<
            Seq<char>,
            Seq<char>,
        >(key@),
        r matches Ok(t) ==> (store_base(option_view(store)) matches Ok(b) && keeps_other_entries(
            t@,
            b,
            provider@,
        )),
{
    let nonce = match random_nonce() {
        Ok(n) => n,
        Err(_) => {
            proof {
                reveal_strlit("Failed to generate a nonce");
            }
            return Err(owned("Failed to generate a nonce"));
        },
    };
    save_api_key_to_store_with_nonce(machine_key, nonce.as_slice(), store, provider, key)
}

} // verus!
