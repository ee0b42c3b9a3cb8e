//! The diagnostics report shown in the settings window.

use vstd::prelude::*;
use crate::config::AppConfig;
use crate::text::{concat, decimal, decimal_spec, owned, push_char, str_eq, to_chars};

verus! {

/// One line of the diagnostics: an id, `ok` or `warning`, and a detail.
pub struct DiagnosticCheck {
    pub id: String,
    pub status: String,
    pub detail: String,
}

/// Whether a provider has an API key stored; never the key itself.
pub struct ProviderKeyStatus {
    pub provider: String,
    pub configured: bool,
}

/// Everything the diagnostics window shows.
pub struct DiagnosticsReport {
    pub app_version: String,
    pub package_version: String,
    pub build_mode: String,
    pub build_commit: String,
    pub build_run_id: String,
    pub data_dir: String,
    pub config_path: String,
    pub keys_path: String,
    pub logs_path: String,
    pub cloud_provider: String,
    pub selected_model: String,
    pub correction_mode: String,
    pub correction_model: String,
    pub local_whisper_enabled: bool,
    pub api_keys: Vec<ProviderKeyStatus>,
    pub input_devices: Vec<String>,
    pub default_input_device: Option<String>,
    pub checks: Vec<DiagnosticCheck>,
}

/// Where the app keeps its files, as displayed.
pub struct DataPaths {
    pub data_dir: String,
    pub config_path: String,
    pub keys_path: String,
    pub logs_path: String,
}

/// What the build was made with.
pub struct BuildInfo {
    /// The crate version the app was built as.
    pub package_version: String,
    /// The commit id that the build environment gave, if any.
    pub commit: Option<String>,
    /// The CI run id that the build environment gave, if any.
    pub run_id: Option<String>,
    /// Whether local whisper.cpp transcription is compiled in.
    pub local_whisper: bool,
}

/// At most the first `n` characters.
pub open spec fn first_chars(s: Seq<char>, n: nat) -> Seq<char> {
    if s.len() <= n { s } else { s.take(n as int) }
}

/// A build variable shortened for display: `GITHUB_SHA` (the only one
/// read) or `local` where it is absent, cut to twelve characters.
pub open spec fn short_env_spec(name: Seq<char>, github_sha: Option<Seq<char>>) -> Seq<char> {
    let value = if name == "GITHUB_SHA"@ {
        match github_sha {
            Some(v) => v,
            None => "local"@,
        }
    } else {
        "local"@
    };
    first_chars(value, 12)
}

/// At most the first `n` characters of `s`.
pub fn take_chars(s: &str, n: usize) -> (r: String)
    ensures
        r@ == first_chars(s@, n as nat),
{
    let cs = to_chars(s);
    let k = if cs.len() <= n { cs.len() } else { n };
    let mut r = String::new();
    let mut i: usize = 0;
    while i < k
        invariant
            k <= cs@.len(),
            i <= k,
            r@ == cs@.take(i as int),
        decreases k - i,
    {
        push_char(&mut r, cs[i]);
        i = i + 1;
        assert(r@ =~= cs@.take(i as int));
    }
    assert(cs@.take(cs@.len() as int) =~= cs@);
    r
}

/// The value of a build variable for display, from the value the build
/// environment gave for `GITHUB_SHA`.
pub fn short_env(name: &str, github_sha: Option<&str>) -> (r: String)
    ensures
        r@ == short_env_spec(
            name@,
            match github_sha {
                Some(v) => Some(v@),
                None => None,
            },
        ),
        (github_sha matches Some(v) ==> v@.len() != 0) ==> r@.len() != 0,
{
    proof {
        reveal_strlit("GITHUB_SHA");
        reveal_strlit("local");
    }
    let value = if str_eq(name, "GITHUB_SHA") {
        match github_sha {
            Some(v) => v,
            None => "local",
        }
    } else {
        "local"
    };
    take_chars(value, 12)
}

/// The providers whose keys the report lists.
pub open spec fn key_provider_names() -> Seq<Seq<char>> {
    seq!["openai"@, "groq"@, "deepgram"@]
}

/// The providers whose keys the report lists, in order.
pub fn key_providers() -> (r: Vec<String>)
    ensures
        crate::text::views(r@) == key_provider_names(),
{
    let mut r: Vec<String> = Vec::new();
    r.push(owned("openai"));
    r.push(owned("groq"));
    r.push(owned("deepgram"));
    assert(crate::text::views(r@) =~= key_provider_names());
    r
}

/// Whether the read of a provider's key found one: a non-empty key.
pub open spec fn key_found(loaded: Result<String, String>) -> bool {
    loaded matches Ok(k) && k@.len() != 0
}

fn key_found_exec(loaded: &Result<String, String>) -> (r: bool)
    ensures
        r == key_found(*loaded),
{
    match loaded {
        Ok(k) => !k.as_str().is_empty(),
        Err(_) => false,
    }
}

/// A provider's key status from the attempt to read its key: configured
/// when a non-empty key was read.
pub fn provider_key_status(provider: String, loaded: Result<String, String>) -> (r:
    ProviderKeyStatus)
    ensures
        r.provider == provider,
        r.configured == key_found(loaded),
{
    let configured = key_found_exec(&loaded);
    ProviderKeyStatus { provider, configured }
}

/// A key status by the view of its provider name and its flag.
pub open spec fn status_view(s: ProviderKeyStatus) -> (Seq<char>, bool) {
    (s.provider@, s.configured)
}

/// Key statuses by their views.
pub open spec fn status_views(v: Seq<ProviderKeyStatus>) -> Seq<(Seq<char>, bool)> {
    v.map_values(|s: ProviderKeyStatus| status_view(s))
}

/// The key statuses of the report, from the reads of the keys of the
/// providers of `key_provider_names`, in that order.
pub open spec fn key_statuses_spec(loaded: Seq<Result<String, String>>) -> Seq<(Seq<char>, bool)> {
    Seq::new(3, |i: int| (key_provider_names()[i], key_found(loaded[i])))
}

/// The key statuses of the report, from the reads of the keys of the
/// providers that `key_providers` lists, in its order.
pub fn key_statuses(loaded: Vec<Result<String, String>>) -> (r: Vec<ProviderKeyStatus>)
    requires
        loaded@.len() == 3,
    ensures
        status_views(r@) == key_statuses_spec(loaded@),
{
    let names = key_providers();
    let mut r: Vec<ProviderKeyStatus> = Vec::new();
    let mut i: usize = 0;
    assert(crate::text::views(names@).len() == names@.len());
    while i < 3
        invariant
            i <= 3,
            loaded@.len() == 3,
            names@.len() == 3,
            crate::text::views(names@) == key_provider_names(),
            status_views(r@) == key_statuses_spec(
                loaded@,
            ).take(i as int),
        decreases 3 - i,
    {
        let provider = names[i].clone();
        let configured = key_found_exec(&loaded[i]);
        let ghost before = r@;
        proof {
            assert(status_views(r@).len() == r@.len());
            assert(before.len() == i);
            assert(crate::text::views(names@)[i as int] == names@[i as int]@);
            assert(provider@ == key_provider_names()[i as int]);
        }
        r.push(ProviderKeyStatus { provider, configured });
        proof {
            assert(r@ == before.push(ProviderKeyStatus { provider, configured }));
            assert forall|k: int| 0 <= k < i + 1 implies #[trigger] status_views(r@)[k]
                == key_statuses_spec(loaded@)[k] by {
                if k < i {
                    assert(r@[k] == before[k]);
                    assert(status_views(before)[k] == key_statuses_spec(loaded@).take(
                        i as int,
                    )[k]);
                }
            }
        }
        i = i + 1;
        assert(status_views(r@) =~= key_statuses_spec(
            loaded@,
        ).take(i as int));
    }
    assert(key_statuses_spec(loaded@).take(3) =~= key_statuses_spec(loaded@));
    r
}

/// No key reaches the report: two sets of reads that agree, provider by
/// provider, on whether a key was read and whether it was empty give the
/// same statuses, whatever the keys themselves are.
pub proof fn lemma_key_statuses_hide_keys(
    a: Seq<Result<String, String>>,
    b: Seq<Result<String, String>>,
)
    requires
        a.len() == 3,
        b.len() == 3,
        forall|i: int|
            0 <= i < 3 ==> match (#[trigger] a[i], b[i]) {
                (Ok(x), Ok(y)) => (x@.len() == 0) == (y@.len() == 0),
                (Err(_), Err(_)) => true,
                _ => false,
            },
    ensures
        key_statuses_spec(a) == key_statuses_spec(b),
{
    assert forall|i: int| 0 <= i < 3 implies key_found(a[i]) == key_found(b[i]) by {
        let _ = a[i];
    }
    assert(key_statuses_spec(a) =~= key_statuses_spec(b));
}

fn ok_or_warning(ok: bool) -> (r: String)
    ensures
        r@ == (if ok { "ok"@ } else { "warning"@ }),
{
    if ok {
        owned("ok")
    } else {
        owned("warning")
    }
}

fn check(id: &str, status: String, detail: String) -> (r: DiagnosticCheck)
    ensures
        r.id@ == id@,
        r.status == status,
        r.detail == detail,
{
    DiagnosticCheck { id: owned(id), status, detail }
}

/// The four checks of the report, in order: where the config lives, the
/// provider setting, local whisper, and the input devices.
pub open spec fn checks_spec(
    config_path: Seq<char>,
    cloud_provider: Seq<char>,
    local_whisper: bool,
    device_count: nat,
) -> Seq<(Seq<char>, Seq<char>, Seq<char>)> {
    seq![
        ("diagnostics.config_path"@, "ok"@, config_path),
        (
            "diagnostics.cloud_provider"@,
            if cloud_provider == "local"@ && !local_whisper {
                "warning"@
            } else {
                "ok"@
            },
            cloud_provider,
        ),
        (
            "diagnostics.local_whisper"@,
            if local_whisper {
                "ok"@
            } else {
                "warning"@
            },
            if local_whisper {
                "enabled"@
            } else {
                "disabled"@
            },
        ),
        (
            "diagnostics.audio_input_devices"@,
            if device_count == 0 {
                "warning"@
            } else {
                "ok"@
            },
            decimal_spec(device_count) + " device(s)"@,
        ),
    ]
}

/// A check by the views of its three strings.
pub open spec fn check_view(c: DiagnosticCheck) -> (Seq<char>, Seq<char>, Seq<char>) {
    (c.id@, c.status@, c.detail@)
}

/// Assembles the diagnostics report from the paths, the settings (their
/// defaults where none could be read), the build, the key statuses and the
/// audio devices.
pub fn diagnostics_report(
    paths: DataPaths,
    config: AppConfig,
    build: BuildInfo,
    api_keys: Vec<ProviderKeyStatus>,
    input_devices: Vec<String>,
    default_input_device: Option<String>,
) -> (r: DiagnosticsReport)
    ensures
        r.app_version == config.version,
        r.package_version == build.package_version,
        r.build_mode@ == (if build.local_whisper {
            "local-whisper"@
        } else {
            "cloud-only"@
        }),
        r.build_commit@ == short_env_spec(
            "GITHUB_SHA"@,
            match build.commit {
                Some(c) => Some(c@),
                None => None,
            },
        ),
        r.build_run_id@ == (match build.run_id {
            Some(id) => id@,
            None => "local"@,
        }),
        r.data_dir == paths.data_dir,
        r.config_path == paths.config_path,
        r.keys_path == paths.keys_path,
        r.logs_path == paths.logs_path,
        r.cloud_provider == config.cloud_provider,
        r.selected_model == config.model,
        r.correction_mode == config.correction_mode,
        r.correction_model == config.correction_model,
        r.local_whisper_enabled == build.local_whisper,
        r.api_keys == api_keys,
        r.input_devices == input_devices,
        r.default_input_device == default_input_device,
        r.checks@.map_values(|c: DiagnosticCheck| check_view(c)) == checks_spec(
            paths.config_path@,
            config.cloud_provider@,
            build.local_whisper,
            input_devices@.len(),
        ),
{
    proof {
        reveal_strlit("local");
    }
    let local_whisper = build.local_whisper;
    let n = input_devices.len();
    let mut checks: Vec<DiagnosticCheck> = Vec::new();
    checks.push(check("diagnostics.config_path", owned("ok"), paths.config_path.clone()));
    let provider_warns = str_eq(config.cloud_provider.as_str(), "local") && !local_whisper;
    checks.push(
        check(
            "diagnostics.cloud_provider",
            ok_or_warning(!provider_warns),
            config.cloud_provider.clone(),
        ),
    );
    let whisper_detail = if local_whisper {
        owned("enabled")
    } else {
        owned("disabled")
    };
    checks.push(check("diagnostics.local_whisper", ok_or_warning(local_whisper), whisper_detail));
    let count = decimal(n as u64);
    checks.push(
        check(
            "diagnostics.audio_input_devices",
            ok_or_warning(n != 0),
            concat(count.as_str(), " device(s)"),
        ),
    );
    assert(checks@.map_values(|c: DiagnosticCheck| check_view(c)) =~= checks_spec(
        paths.config_path@,
        config.cloud_provider@,
        local_whisper,
        input_devices@.len(),
    ));
    let build_mode = if local_whisper {
        owned("local-whisper")
    } else {
        owned("cloud-only")
    };
    let build_commit = match &build.commit {
        Some(c) => short_env("GITHUB_SHA", Some(c.as_str())),
        None => short_env("GITHUB_SHA", None),
    };
    let build_run_id = match &build.run_id {
        Some(id) => id.clone(),
        None => owned("local"),
    };
    DiagnosticsReport {
        app_version: config.version,
        package_version: build.package_version,
        build_mode,
        build_commit,
        build_run_id,
        data_dir: paths.data_dir,
        config_path: paths.config_path,
        keys_path: paths.keys_path,
        logs_path: paths.logs_path,
        cloud_provider: config.cloud_provider,
        selected_model: config.model,
        correction_mode: config.correction_mode,
        correction_model: config.correction_model,
        local_whisper_enabled: local_whisper,
        api_keys,
        input_devices,
        default_input_device,
        checks,
    }
}

/// The provider check warns exactly when the selected provider is `local`
/// and local whisper is not compiled in; any other provider, or a build
/// with local whisper, is `ok`. The whisper check warns exactly when local
/// whisper is absent, and the device check exactly when there is no device.
pub proof fn lemma_diagnostics_check_statuses(
    config_path: Seq<char>,
    cloud_provider: Seq<char>,
    local_whisper: bool,
    device_count: nat,
)
    ensures
        ({
            let c = checks_spec(config_path, cloud_provider, local_whisper, device_count);
            &&& c.len() == 4
            &&& c[0].1 == "ok"@
            &&& (cloud_provider != "local"@ || local_whisper) ==> c[1].1 == "ok"@
            &&& (cloud_provider == "local"@ && !local_whisper) ==> c[1].1 == "warning"@
            &&& c[1].2 == cloud_provider
            &&& c[2].1 == (if local_whisper { "ok"@ } else { "warning"@ })
            &&& c[3].1 == (if device_count == 0 { "warning"@ } else { "ok"@ })
        }),
{
}

} // verus!
