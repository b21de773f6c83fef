//! Linux secret-store selection for the Chromium extractor: classifying the
//! desktop environment from its environment variables, choosing the keyring
//! backend, and parsing the replies of the external wallet helpers.
//!
//! The application reads the environment variables and runs the helper
//! processes; every decision and every parse of their output is verified
//! here.

use vstd::prelude::*;

verus! {

use vstd::string::*;
use crate::config::spec_split_head;
use crate::error::RurlError;
use crate::text::{
    contains_sub, find_sub, lemma_find_unique, spec_contains, spec_find, spec_lower,
    spec_starts_with, spec_trim, starts_with_str, str_eq, to_ascii_lowercase, trim_ascii,
};

/// The Linux desktop environments the detection distinguishes.
#[derive(Debug, Clone, Copy, PartialEq, Eq, Structural)]
pub enum LinuxDesktopEnvironment {
    Other,
    Cinnamon,
    Deepin,
    Gnome,
    Kde3,
    Kde4,
    Kde5,
    Kde6,
    Pantheon,
    Ukui,
    Unity,
    Xfce,
    Lxqt,
}

/// The secret-store backends a Chromium master password may live in.
#[derive(Debug, Clone, Copy, PartialEq, Eq, Structural)]
pub enum LinuxKeyring {
    KWallet,
    KWallet5,
    KWallet6,
    GnomeKeyring,
    BasicText,
}

// ---------------------------------------------------------------------------
// Desktop-environment detection
// ---------------------------------------------------------------------------

/// What one (trimmed) `XDG_CURRENT_DESKTOP` token denotes; `Unity` defers
/// to the session for the GNOME fallback, `KDE` to the KDE session version.
pub open spec fn spec_classify_token(
    token: Seq<char>,
    desktop_session: Seq<char>,
    kde_version: Option<Seq<char>>,
) -> Option<LinuxDesktopEnvironment> {
    if token == "Unity"@ {
        if spec_contains(desktop_session, "gnome-fallback"@) {
            Some(LinuxDesktopEnvironment::Gnome)
        } else {
            Some(LinuxDesktopEnvironment::Unity)
        }
    } else if token == "Deepin"@ {
        Some(LinuxDesktopEnvironment::Deepin)
    } else if token == "GNOME"@ {
        Some(LinuxDesktopEnvironment::Gnome)
    } else if token == "X-Cinnamon"@ {
        Some(LinuxDesktopEnvironment::Cinnamon)
    } else if token == "KDE"@ {
        if kde_version == Some("5"@) {
            Some(LinuxDesktopEnvironment::Kde5)
        } else if kde_version == Some("6"@) {
            Some(LinuxDesktopEnvironment::Kde6)
        } else {
            Some(LinuxDesktopEnvironment::Kde4)
        }
    } else if token == "Pantheon"@ {
        Some(LinuxDesktopEnvironment::Pantheon)
    } else if token == "XFCE"@ {
        Some(LinuxDesktopEnvironment::Xfce)
    } else if token == "UKUI"@ {
        Some(LinuxDesktopEnvironment::Ukui)
    } else if token == "LXQt"@ {
        Some(LinuxDesktopEnvironment::Lxqt)
    } else {
        None
    }
}

/// The first colon-separated token of `XDG_CURRENT_DESKTOP` that denotes a
/// known desktop.
pub open spec fn spec_classify_xdg(
    s: Seq<char>,
    desktop_session: Seq<char>,
    kde_version: Option<Seq<char>>,
) -> Option<LinuxDesktopEnvironment>
    decreases s.len(),
{
    let token = spec_trim(spec_split_head(s, seq![':']));
    let hit = spec_classify_token(token, desktop_session, kde_version);
    match spec_find(s, seq![':']) {
        None => hit,
        Some(i) => if hit is Some {
            hit
        } else if 0 <= i && i < s.len() {
            spec_classify_xdg(s.subrange(i + 1, s.len() as int), desktop_session, kde_version)
        } else {
            hit
        },
    }
}

fn classify_token(
    token: &str,
    desktop_session: &str,
    kde_version: Option<&str>,
) -> (r: Option<LinuxDesktopEnvironment>)
    ensures
        r == spec_classify_token(
            token@,
            desktop_session@,
            match kde_version {
                Some(v) => Some(v@),
                None => None,
            },
        ),
{
    if str_eq(token, "Unity") {
        if contains_sub(desktop_session, "gnome-fallback") {
            Some(LinuxDesktopEnvironment::Gnome)
        } else {
            Some(LinuxDesktopEnvironment::Unity)
        }
    } else if str_eq(token, "Deepin") {
        Some(LinuxDesktopEnvironment::Deepin)
    } else if str_eq(token, "GNOME") {
        Some(LinuxDesktopEnvironment::Gnome)
    } else if str_eq(token, "X-Cinnamon") {
        Some(LinuxDesktopEnvironment::Cinnamon)
    } else if str_eq(token, "KDE") {
        let is5 = match kde_version {
            Some(v) => str_eq(v, "5"),
            None => false,
        };
        let is6 = match kde_version {
            Some(v) => str_eq(v, "6"),
            None => false,
        };
        if is5 {
            Some(LinuxDesktopEnvironment::Kde5)
        } else if is6 {
            Some(LinuxDesktopEnvironment::Kde6)
        } else {
            Some(LinuxDesktopEnvironment::Kde4)
        }
    } else if str_eq(token, "Pantheon") {
        Some(LinuxDesktopEnvironment::Pantheon)
    } else if str_eq(token, "XFCE") {
        Some(LinuxDesktopEnvironment::Xfce)
    } else if str_eq(token, "UKUI") {
        Some(LinuxDesktopEnvironment::Ukui)
    } else if str_eq(token, "LXQt") {
        Some(LinuxDesktopEnvironment::Lxqt)
    } else {
        None
    }
}

fn classify_xdg(s: &str, desktop_session: &str, kde_version: Option<&str>) -> (r: Option<
    LinuxDesktopEnvironment,
>)
    ensures
        r == spec_classify_xdg(
            s@,
            desktop_session@,
            match kde_version {
                Some(v) => Some(v@),
                None => None,
            },
        ),
    decreases s@.len(),
{
    proof {
        reveal_strlit(":");
        assert(":"@ =~= seq![':']);
    }
    let len: usize = s.unicode_len();
    match find_sub(s, ":") {
        None => {
            proof {
                assert(spec_find(s@, seq![':']) is None);
            }
            let token = trim_ascii(s);
            classify_token(token.as_str(), desktop_session, kde_version)
        },
        Some(i) => {
            proof {
                lemma_find_unique(s@, seq![':'], i as int);
            }
            let head = s.substring_char(0, i);
            let token = trim_ascii(head);
            match classify_token(token.as_str(), desktop_session, kde_version) {
                Some(d) => Some(d),
                None => {
                    let rest = s.substring_char(i + 1, len);
                    classify_xdg(rest, desktop_session, kde_version)
                },
            }
        },
    }
}

/// The session fallbacks when `XDG_CURRENT_DESKTOP` names no known desktop:
/// session names, then an `xfce` session, then the GNOME and KDE marker
/// variables.
pub open spec fn spec_session_fallback(
    desktop_session: Seq<char>,
    kde_version_set: bool,
    gnome_session_id_set: bool,
    kde_full_session_set: bool,
) -> LinuxDesktopEnvironment {
    if desktop_session == "deepin"@ {
        LinuxDesktopEnvironment::Deepin
    } else if desktop_session == "mate"@ || desktop_session == "gnome"@ {
        LinuxDesktopEnvironment::Gnome
    } else if desktop_session == "kde4"@ || desktop_session == "kde-plasma"@ {
        LinuxDesktopEnvironment::Kde4
    } else if desktop_session == "kde"@ {
        if kde_version_set {
            LinuxDesktopEnvironment::Kde4
        } else {
            LinuxDesktopEnvironment::Kde3
        }
    } else if desktop_session == "ukui"@ {
        LinuxDesktopEnvironment::Ukui
    } else if spec_contains(desktop_session, "xfce"@) || desktop_session == "xubuntu"@ {
        LinuxDesktopEnvironment::Xfce
    } else if gnome_session_id_set {
        LinuxDesktopEnvironment::Gnome
    } else if kde_full_session_set {
        if kde_version_set {
            LinuxDesktopEnvironment::Kde4
        } else {
            LinuxDesktopEnvironment::Kde3
        }
    } else {
        LinuxDesktopEnvironment::Other
    }
}

/// The desktop environment, from the values of `XDG_CURRENT_DESKTOP`,
/// `DESKTOP_SESSION`, `KDE_SESSION_VERSION`, and whether
/// `GNOME_DESKTOP_SESSION_ID` and `KDE_FULL_SESSION` are set.
pub open spec fn spec_desktop_environment(
    xdg_current_desktop: Option<Seq<char>>,
    desktop_session: Seq<char>,
    kde_version: Option<Seq<char>>,
    gnome_session_id_set: bool,
    kde_full_session_set: bool,
) -> LinuxDesktopEnvironment {
    let fallback = spec_session_fallback(
        desktop_session,
        kde_version is Some,
        gnome_session_id_set,
        kde_full_session_set,
    );
    match xdg_current_desktop {
        Some(x) => match spec_classify_xdg(x, desktop_session, kde_version) {
            Some(d) => d,
            None => fallback,
        },
        None => fallback,
    }
}

/// Classifies the desktop from its environment variables, which the
/// application reads and hands over.
pub fn get_linux_desktop_environment(
    xdg_current_desktop: Option<&str>,
    desktop_session: &str,
    kde_version: Option<&str>,
    gnome_session_id_set: bool,
    kde_full_session_set: bool,
) -> (r: LinuxDesktopEnvironment)
    ensures
        r == spec_desktop_environment(
            match xdg_current_desktop {
                Some(x) => Some(x@),
                None => None,
            },
            desktop_session@,
            match kde_version {
                Some(v) => Some(v@),
                None => None,
            },
            gnome_session_id_set,
            kde_full_session_set,
        ),
{
    if let Some(x) = xdg_current_desktop {
        if let Some(d) = classify_xdg(x, desktop_session, kde_version) {
            return d;
        }
    }
    if str_eq(desktop_session, "deepin") {
        LinuxDesktopEnvironment::Deepin
    } else if str_eq(desktop_session, "mate") || str_eq(desktop_session, "gnome") {
        LinuxDesktopEnvironment::Gnome
    } else if str_eq(desktop_session, "kde4") || str_eq(desktop_session, "kde-plasma") {
        LinuxDesktopEnvironment::Kde4
    } else if str_eq(desktop_session, "kde") {
        if kde_version.is_some() {
            LinuxDesktopEnvironment::Kde4
        } else {
            LinuxDesktopEnvironment::Kde3
        }
    } else if str_eq(desktop_session, "ukui") {
        LinuxDesktopEnvironment::Ukui
    } else if contains_sub(desktop_session, "xfce") || str_eq(desktop_session, "xubuntu") {
        LinuxDesktopEnvironment::Xfce
    } else if gnome_session_id_set {
        LinuxDesktopEnvironment::Gnome
    } else if kde_full_session_set {
        if kde_version.is_some() {
            LinuxDesktopEnvironment::Kde4
        } else {
            LinuxDesktopEnvironment::Kde3
        }
    } else {
        LinuxDesktopEnvironment::Other
    }
}

// ---------------------------------------------------------------------------
// Backend choice
// ---------------------------------------------------------------------------

/// Which keyring each desktop uses: the KDE generations their wallets, the
/// GNOME-like desktops the Secret Service, the rest no secret store.
pub open spec fn spec_choose_keyring(d: LinuxDesktopEnvironment) -> LinuxKeyring {
    match d {
        LinuxDesktopEnvironment::Kde4 => LinuxKeyring::KWallet,
        LinuxDesktopEnvironment::Kde5 => LinuxKeyring::KWallet5,
        LinuxDesktopEnvironment::Kde6 => LinuxKeyring::KWallet6,
        LinuxDesktopEnvironment::Kde3 => LinuxKeyring::BasicText,
        LinuxDesktopEnvironment::Lxqt => LinuxKeyring::BasicText,
        LinuxDesktopEnvironment::Other => LinuxKeyring::BasicText,
        _ => LinuxKeyring::GnomeKeyring,
    }
}

pub fn choose_linux_keyring(desktop: LinuxDesktopEnvironment) -> (r: LinuxKeyring)
    ensures
        r == spec_choose_keyring(desktop),
{
    match desktop {
        LinuxDesktopEnvironment::Kde4 => LinuxKeyring::KWallet,
        LinuxDesktopEnvironment::Kde5 => LinuxKeyring::KWallet5,
        LinuxDesktopEnvironment::Kde6 => LinuxKeyring::KWallet6,
        LinuxDesktopEnvironment::Kde3 => LinuxKeyring::BasicText,
        LinuxDesktopEnvironment::Lxqt => LinuxKeyring::BasicText,
        LinuxDesktopEnvironment::Other => LinuxKeyring::BasicText,
        _ => LinuxKeyring::GnomeKeyring,
    }
}

/// Which keyring a (case-folded) override name denotes.
pub open spec fn spec_parse_keyring(s: Seq<char>) -> Option<LinuxKeyring> {
    let lower = spec_lower(s);
    if lower == "kwallet"@ {
        Some(LinuxKeyring::KWallet)
    } else if lower == "kwallet5"@ {
        Some(LinuxKeyring::KWallet5)
    } else if lower == "kwallet6"@ {
        Some(LinuxKeyring::KWallet6)
    } else if lower == "gnome"@ || lower == "gnomekeyring"@ {
        Some(LinuxKeyring::GnomeKeyring)
    } else if lower == "basic"@ || lower == "basictext"@ {
        Some(LinuxKeyring::BasicText)
    } else {
        None
    }
}

/// Parses an explicit keyring override; an unknown name is a configuration
/// error.
pub fn parse_linux_keyring(value: &str) -> (r: Result<LinuxKeyring, RurlError>)
    ensures
        match r {
            Ok(k) => spec_parse_keyring(value@) == Some(k),
            Err(e) => spec_parse_keyring(value@) is None && (e matches RurlError::Config(m) && m@
                == "Unsupported keyring: "@ + value@),
        },
{
    let lower = to_ascii_lowercase(value);
    let l = lower.as_str();
    if str_eq(l, "kwallet") {
        Ok(LinuxKeyring::KWallet)
    } else if str_eq(l, "kwallet5") {
        Ok(LinuxKeyring::KWallet5)
    } else if str_eq(l, "kwallet6") {
        Ok(LinuxKeyring::KWallet6)
    } else if str_eq(l, "gnome") || str_eq(l, "gnomekeyring") {
        Ok(LinuxKeyring::GnomeKeyring)
    } else if str_eq(l, "basic") || str_eq(l, "basictext") {
        Ok(LinuxKeyring::BasicText)
    } else {
        let mut message = "Unsupported keyring: ".to_owned();
        message.append(value);
        Err(RurlError::Config(message))
    }
}

// ---------------------------------------------------------------------------
// Labels and helper replies
// ---------------------------------------------------------------------------

/// The secret-store label a browser's master password is kept under.
pub fn safe_storage_label(account: &str) -> (r: String)
    ensures
        r@ == account@ + " Safe Storage"@,
{
    let mut label = account.to_owned();
    label.append(" Safe Storage");
    label
}

/// The KWallet folder a browser's keys are kept in.
pub fn kwallet_folder(account: &str) -> (r: String)
    ensures
        r@ == account@ + " Keys"@,
{
    let mut folder = account.to_owned();
    folder.append(" Keys");
    folder
}

/// The D-Bus service and object path of each KWallet generation; the
/// non-KWallet backends have none.
pub open spec fn spec_kwallet_service(k: LinuxKeyring) -> Option<(Seq<char>, Seq<char>)> {
    match k {
        LinuxKeyring::KWallet => Some(("org.kde.kwalletd"@, "/modules/kwalletd"@)),
        LinuxKeyring::KWallet5 => Some(("org.kde.kwalletd5"@, "/modules/kwalletd5"@)),
        LinuxKeyring::KWallet6 => Some(("org.kde.kwalletd6"@, "/modules/kwalletd6"@)),
        _ => None,
    }
}

pub fn kwallet_service_names(keyring: LinuxKeyring) -> (r: Option<(String, String)>)
    ensures
        match r {
            Some(names) => spec_kwallet_service(keyring) == Some((names.0@, names.1@)),
            None => spec_kwallet_service(keyring) is None,
        },
{
    match keyring {
        LinuxKeyring::KWallet => Some(("org.kde.kwalletd".to_owned(), "/modules/kwalletd".to_owned())),
        LinuxKeyring::KWallet5 => Some(
            ("org.kde.kwalletd5".to_owned(), "/modules/kwalletd5".to_owned()),
        ),
        LinuxKeyring::KWallet6 => Some(
            ("org.kde.kwalletd6".to_owned(), "/modules/kwalletd6".to_owned()),
        ),
        _ => None,
    }
}

/// Trailing newlines removed.
pub open spec fn spec_trim_end_newlines(s: Seq<char>) -> Seq<char>
    decreases s.len(),
{
    if s.len() > 0 && s[s.len() - 1] == '\n' {
        spec_trim_end_newlines(s.drop_last())
    } else {
        s
    }
}

proof fn lemma_trim_end_newlines_at(s: Seq<char>, j: int)
    requires
        0 <= j <= s.len(),
        forall|k: int| j <= k < s.len() ==> s[k] == '\n',
        j > 0 ==> s[j - 1] != '\n',
    ensures
        spec_trim_end_newlines(s) =~= s.subrange(0, j),
    decreases s.len() - j,
{
    if j == s.len() {
        assert(s.subrange(0, s.len() as int) =~= s);
    } else {
        let t = s.drop_last();
        lemma_trim_end_newlines_at(t, j);
        assert(t.subrange(0, j) =~= s.subrange(0, j));
    }
}

/// The password in a `kwallet-query` reply: empty when the helper failed or
/// reported that it could not read, else the output with trailing newlines
/// removed.
pub open spec fn spec_kwallet_password(success: bool, stdout: Seq<char>) -> Seq<char> {
    if !success {
        Seq::empty()
    } else if spec_starts_with(spec_lower(stdout), "failed to read"@) {
        Seq::empty()
    } else {
        spec_trim_end_newlines(stdout)
    }
}

/// Extracts the password from a `kwallet-query` run: its exit status and
/// what it printed.
pub fn parse_kwallet_output(success: bool, stdout: &str) -> (r: String)
    ensures
        r@ == spec_kwallet_password(success, stdout@),
{
    if !success {
        return String::new();
    }
    let lower = to_ascii_lowercase(stdout);
    if starts_with_str(lower.as_str(), "failed to read") {
        return String::new();
    }
    let len: usize = stdout.unicode_len();
    let mut j: usize = len;
    while j > 0 && stdout.get_char(j - 1) == '\n'
        invariant
            j <= len,
            len == stdout@.len(),
            forall|k: int| j <= k < len ==> stdout@[k] == '\n',
        decreases j,
    {
        j = j - 1;
    }
    proof {
        lemma_trim_end_newlines_at(stdout@, j as int);
    }
    stdout.substring_char(0, j).to_owned()
}

/// The wallet name in one line of a `dbus-send` reply: what stands between
/// `string "` and the next `"`.
pub open spec fn spec_wallet_from_line(line: Seq<char>) -> Option<Seq<char>> {
    match spec_find(line, "string \""@) {
        None => None,
        Some(start) => {
            let rest = line.subrange(start + "string \""@.len(), line.len() as int);
            match spec_find(rest, seq!['"']) {
                None => None,
                Some(end) => Some(rest.subrange(0, end)),
            }
        },
    }
}

/// The wallet name in a whole `dbus-send` reply: the first line that
/// carries one.
pub open spec fn spec_wallet_from_reply(s: Seq<char>) -> Option<Seq<char>>
    decreases s.len(),
{
    let hit = spec_wallet_from_line(spec_split_head(s, seq!['\n']));
    match spec_find(s, seq!['\n']) {
        None => hit,
        Some(i) => if hit is Some {
            hit
        } else if 0 <= i && i < s.len() {
            spec_wallet_from_reply(s.subrange(i + 1, s.len() as int))
        } else {
            hit
        },
    }
}

/// The network wallet a `dbus-send` call names, falling back to
/// `kdewallet` when the call failed or nothing could be parsed.
pub open spec fn spec_network_wallet(success: bool, stdout: Seq<char>) -> Seq<char> {
    if !success {
        "kdewallet"@
    } else {
        match spec_wallet_from_reply(stdout) {
            Some(w) => w,
            None => "kdewallet"@,
        }
    }
}

fn wallet_from_line(line: &str) -> (r: Option<String>)
    ensures
        match r {
            Some(w) => spec_wallet_from_line(line@) == Some(w@),
            None => spec_wallet_from_line(line@) is None,
        },
{
    let len: usize = line.unicode_len();
    match find_sub(line, "string \"") {
        None => {
            proof {
                assert(spec_find(line@, "string \""@) is None);
            }
            None
        },
        Some(start) => {
            proof {
                lemma_find_unique(line@, "string \""@, start as int);
            }
            let patlen: usize = "string \"".unicode_len();
            let rest = line.substring_char(start + patlen, len);
            proof {
                reveal_strlit("\"");
                assert("\""@ =~= seq!['"']);
            }
            match find_sub(rest, "\"") {
                None => {
                    proof {
                        assert(spec_find(rest@, seq!['"']) is None);
                    }
                    None
                },
                Some(end) => {
                    proof {
                        lemma_find_unique(rest@, seq!['"'], end as int);
                    }
                    Some(rest.substring_char(0, end).to_owned())
                },
            }
        },
    }
}

fn wallet_from_reply(s: &str) -> (r: Option<String>)
    ensures
        match r {
            Some(w) => spec_wallet_from_reply(s@) == Some(w@),
            None => spec_wallet_from_reply(s@) is None,
        },
    decreases s@.len(),
{
    proof {
        reveal_strlit("\n");
        assert("\n"@ =~= seq!['\n']);
    }
    let len: usize = s.unicode_len();
    match find_sub(s, "\n") {
        None => {
            proof {
                assert(spec_find(s@, seq!['\n']) is None);
            }
            wallet_from_line(s)
        },
        Some(i) => {
            proof {
                lemma_find_unique(s@, seq!['\n'], i as int);
            }
            let head = s.substring_char(0, i);
            match wallet_from_line(head) {
                Some(w) => Some(w),
                None => wallet_from_reply(s.substring_char(i + 1, len)),
            }
        },
    }
}

/// Extracts the network wallet name from a `dbus-send` run, with the
/// `kdewallet` fallback.
pub fn parse_network_wallet_reply(success: bool, stdout: &str) -> (r: String)
    ensures
        r@ == spec_network_wallet(success, stdout@),
{
    if !success {
        return "kdewallet".to_owned();
    }
    match wallet_from_reply(stdout) {
        Some(w) => w,
        None => "kdewallet".to_owned(),
    }
}

} // verus!
