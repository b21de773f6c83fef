//! The Firefox extractor: schema-tolerant column selection, contextual
//! identity ("container") resolution and filtering, and the conversion of
//! queried `moz_cookies` rows into a [`CookieStore`].  Values are stored in
//! clear text, so there is no decryption step.

use vstd::prelude::*;

verus! {

use vstd::string::*;
use crate::cookie::{Cookie, CookieModel, CookieStore};
use crate::config::ov;
use crate::error::RurlError;
use crate::text::{
    contains_sub, ends_with_str, spec_contains, spec_ends_with, spec_starts_with, spec_u64_dec,
    starts_with_str, str_eq, u64_to_dec,
};

// ---------------------------------------------------------------------------
// Schema tolerance
// ---------------------------------------------------------------------------

/// The expiry column across schema generations: `expiry`, then `expires`;
/// a table with neither cannot be read.
pub open spec fn spec_expiry_column(cols: Seq<Seq<char>>) -> Option<Seq<char>> {
    if crate::chromium::spec_has_col(cols, "expiry"@) {
        Some("expiry"@)
    } else if crate::chromium::spec_has_col(cols, "expires"@) {
        Some("expires"@)
    } else {
        None
    }
}

/// The secure column: `isSecure`, then `is_secure`, defaulting to
/// `isSecure`.
pub open spec fn spec_ff_secure_column(cols: Seq<Seq<char>>) -> Seq<char> {
    if crate::chromium::spec_has_col(cols, "isSecure"@) {
        "isSecure"@
    } else if crate::chromium::spec_has_col(cols, "is_secure"@) {
        "is_secure"@
    } else {
        "isSecure"@
    }
}

/// The http-only column: `isHttpOnly`, then `is_http_only`, else the
/// literal `0` stands in the query.
pub open spec fn spec_ff_httponly_column(cols: Seq<Seq<char>>) -> Seq<char> {
    if crate::chromium::spec_has_col(cols, "isHttpOnly"@) {
        "isHttpOnly"@
    } else if crate::chromium::spec_has_col(cols, "is_http_only"@) {
        "is_http_only"@
    } else {
        "0"@
    }
}

/// Picks the expiry, http-only and secure column names from the actual
/// column set of `moz_cookies`; a table without an expiry column is an
/// extraction error.
pub fn cookie_columns(columns: &Vec<String>) -> (r: Result<(String, String, String), RurlError>)
    ensures
        match r {
            Ok(cols) => {
                let views = crate::chromium::spec_col_views(columns@);
                &&& spec_expiry_column(views) == Some(cols.0@)
                &&& cols.1@ == spec_ff_httponly_column(views)
                &&& cols.2@ == spec_ff_secure_column(views)
            },
            Err(e) => spec_expiry_column(crate::chromium::spec_col_views(columns@)) is None
                && e is BrowserCookie,
        },
{
    let expiry = if has_column(columns, "expiry") {
        "expiry".to_owned()
    } else if has_column(columns, "expires") {
        "expires".to_owned()
    } else {
        return Err(
            RurlError::BrowserCookie("Firefox cookies table missing expiry column".to_owned()),
        );
    };
    let secure = if has_column(columns, "isSecure") {
        "isSecure".to_owned()
    } else if has_column(columns, "is_secure") {
        "is_secure".to_owned()
    } else {
        "isSecure".to_owned()
    };
    let http_only = if has_column(columns, "isHttpOnly") {
        "isHttpOnly".to_owned()
    } else if has_column(columns, "is_http_only") {
        "is_http_only".to_owned()
    } else {
        "0".to_owned()
    };
    Ok((expiry, http_only, secure))
}

fn has_column(columns: &Vec<String>, name: &str) -> (r: bool)
    ensures
        r == crate::chromium::spec_has_col(crate::chromium::spec_col_views(columns@), name@),
{
    let len: usize = columns.len();
    let mut i: usize = 0;
    while i < len
        invariant
            i <= len,
            len == columns@.len(),
            forall|k: int|
                0 <= k < i ==> crate::chromium::spec_col_views(columns@)[k] != name@,
        decreases len - i,
    {
        if str_eq(columns[i].as_str(), name) {
            proof {
                assert(crate::chromium::spec_col_views(columns@)[i as int] == name@);
            }
            return true;
        }
        i = i + 1;
    }
    false
}

// ---------------------------------------------------------------------------
// Containers (contextual identities)
// ---------------------------------------------------------------------------

/// How rows are filtered by container: all rows, only rows outside every
/// container, or only the rows of one contextual identity.
#[derive(Debug, Clone, Copy, PartialEq, Eq, Structural)]
pub enum ContainerMode {
    Any,
    NoneOnly,
    Specific,
}

/// Model of one entry of `containers.json`.
pub ghost struct ContainerIdentityModel {
    pub name: Option<Seq<char>>,
    pub l10n_id: Option<Seq<char>>,
    pub user_context_id: Option<int>,
}

/// One contextual identity of `containers.json`, as the application parsed
/// it.
pub struct ContainerIdentity {
    pub name: Option<String>,
    pub l10n_id: Option<String>,
    pub user_context_id: Option<i64>,
}

impl View for ContainerIdentity {
    type V = ContainerIdentityModel;

    open spec fn view(&self) -> ContainerIdentityModel {
        ContainerIdentityModel {
            name: ov(self.name),
            l10n_id: ov(self.l10n_id),
            user_context_id: match self.user_context_id {
                Some(v) => Some(v as int),
                None => None,
            },
        }
    }
}

/// A container name matches a localisation id of the form
/// `userContext<Name>.label`.
pub open spec fn spec_l10n_matches(container: Seq<char>, l10n_id: Option<Seq<char>>) -> bool {
    match l10n_id {
        None => false,
        Some(l) => spec_starts_with(l, "userContext"@) && spec_ends_with(l, ".label"@) && l.len()
            >= 17 && l.subrange(11, l.len() - 6) == container,
    }
}

/// Tests a container name against an identity's localisation id.
pub fn l10n_matches(container: &str, l10n_id: Option<&str>) -> (r: bool)
    ensures
        r == spec_l10n_matches(
            container@,
            match l10n_id {
                Some(l) => Some(l@),
                None => None,
            },
        ),
{
    let l = match l10n_id {
        Some(l) => l,
        None => {
            return false;
        },
    };
    proof {
        reveal_strlit("userContext");
        reveal_strlit(".label");
    }
    if !starts_with_str(l, "userContext") {
        return false;
    }
    if !ends_with_str(l, ".label") {
        return false;
    }
    let len: usize = l.unicode_len();
    if len < 17 {
        return false;
    }
    let label = l.substring_char(11, len - 6);
    str_eq(label, container)
}

/// Whether one identity resolves a container name: its `name` equals it, or
/// its localisation id spells it, and it carries a context id.
pub open spec fn spec_identity_matches(id: ContainerIdentityModel, container: Seq<char>) -> bool {
    (id.name == Some(container) || spec_l10n_matches(container, id.l10n_id))
        && id.user_context_id is Some
}

/// The context id of the first identity that resolves the name.
pub open spec fn spec_resolve_in(ids: Seq<ContainerIdentityModel>, container: Seq<char>) -> Option<
    int,
>
    decreases ids.len(),
{
    if ids.len() == 0 {
        None
    } else if spec_identity_matches(ids[0], container) {
        ids[0].user_context_id
    } else {
        spec_resolve_in(ids.drop_first(), container)
    }
}

/// Model views of an identity slice.
pub open spec fn identity_views(ids: Seq<ContainerIdentity>) -> Seq<ContainerIdentityModel> {
    Seq::new(ids.len(), |i: int| ids[i]@)
}

/// What a container request resolves to: no request filters nothing, the
/// literal `none` keeps only container-free rows, a name must resolve to a
/// contextual identity or the whole extraction fails.
pub open spec fn spec_resolve_container(
    ids: Seq<ContainerIdentityModel>,
    container: Option<Seq<char>>,
) -> Option<(Option<int>, ContainerMode)> {
    match container {
        None => Some((None::<int>, ContainerMode::Any)),
        Some(name) => if name == "none"@ {
            Some((None::<int>, ContainerMode::NoneOnly))
        } else {
            match spec_resolve_in(ids, name) {
                Some(id) => Some((Some(id), ContainerMode::Specific)),
                None => None,
            }
        },
    }
}

/// Resolves a requested container against the identities of
/// `containers.json`; an unresolvable name is a configuration error and
/// fails the whole extraction.
pub fn resolve_container(ids: &Vec<ContainerIdentity>, container: Option<&str>) -> (r: Result<
    (Option<i64>, ContainerMode),
    RurlError,
>)
    ensures
        ({
            let c = match container {
                Some(c) => Some(c@),
                None => None::<Seq<char>>,
            };
            match r {
                Ok(resolved) => spec_resolve_container(identity_views(ids@), c) == Some(
                    (
                        match resolved.0 {
                            Some(v) => Some(v as int),
                            None => None::<int>,
                        },
                        resolved.1,
                    ),
                ),
                Err(e) => spec_resolve_container(identity_views(ids@), c) is None
                    && e is Config,
            }
        }),
{
    let name = match container {
        None => {
            return Ok((None, ContainerMode::Any));
        },
        Some(name) => name,
    };
    if str_eq(name, "none") {
        return Ok((None, ContainerMode::NoneOnly));
    }
    let len: usize = ids.len();
    proof {
        assert(identity_views(ids@).skip(0) =~= identity_views(ids@));
    }
    let mut i: usize = 0;
    while i < len
        invariant
            i <= len,
            len == ids@.len(),
            container matches Some(n) && n@ == name@,
            name@ != "none"@,
            spec_resolve_in(identity_views(ids@), name@) == spec_resolve_in(
                identity_views(ids@).skip(i as int),
                name@,
            ),
        decreases len - i,
    {
        proof {
            assert(identity_views(ids@).skip(i as int)[0] == ids@[i as int]@);
            assert(identity_views(ids@).skip(i as int).drop_first() =~= identity_views(
                ids@,
            ).skip(i + 1));
        }
        let id = &ids[i];
        let name_hit = match &id.name {
            Some(n) => str_eq(n.as_str(), name),
            None => false,
        };
        let l10n_hit = l10n_matches(
            name,
            match &id.l10n_id {
                Some(l) => Some(l.as_str()),
                None => None,
            },
        );
        if name_hit || l10n_hit {
            if let Some(ctx) = id.user_context_id {
                proof {
                    assert(spec_identity_matches(ids@[i as int]@, name@));
                    assert(spec_resolve_in(identity_views(ids@).skip(i as int), name@)
                        == ids@[i as int]@.user_context_id);
                    assert(ids@[i as int]@.user_context_id == Some(ctx as int));
                    assert(spec_resolve_in(identity_views(ids@), name@) == Some(ctx as int));
                    assert(spec_resolve_container(identity_views(ids@), Some(name@)) == Some(
                        (Some(ctx as int), ContainerMode::Specific),
                    ));
                }
                return Ok((Some(ctx), ContainerMode::Specific));
            }
        }
        proof {
            assert(!spec_identity_matches(ids@[i as int]@, name@));
        }
        i = i + 1;
    }
    proof {
        assert(identity_views(ids@).skip(len as int) =~= Seq::<ContainerIdentityModel>::empty());
    }
    let mut message = "Firefox container '".to_owned();
    message.append(name);
    message.append("' not found");
    Err(RurlError::Config(message))
}

// ---------------------------------------------------------------------------
// Row filtering and conversion
// ---------------------------------------------------------------------------

/// Decimal rendering of a context id, with a sign for negative values.
pub open spec fn spec_i64_dec(n: int) -> Seq<char> {
    if n < 0 {
        seq!['-'] + spec_u64_dec((-n) as nat)
    } else {
        spec_u64_dec(n as nat)
    }
}

fn i64_to_dec(n: i64) -> (r: String)
    ensures
        r@ == spec_i64_dec(n as int),
{
    if n >= 0 {
        u64_to_dec(n as u64)
    } else {
        let magnitude: u64 = if n == i64::MIN {
            9223372036854775808u64
        } else {
            (-n) as u64
        };
        let mut s = "-".to_owned();
        s.append(u64_to_dec(magnitude).as_str());
        proof {
            reveal_strlit("-");
            assert("-"@ =~= seq!['-']);
        }
        s
    }
}

/// The `userContextId=<id>` token of a contextual identity.
pub open spec fn spec_context_token(id: int) -> Seq<char> {
    "userContextId="@ + spec_i64_dec(id)
}

/// Whether a row's `originAttributes` places it in the requested container:
/// every row with no filter, rows without any `userContextId=` token for
/// the container-free request, and rows whose attributes end with the
/// identity's token or continue it with `&` for a specific identity.
pub open spec fn spec_row_in_container(
    attrs: Seq<char>,
    id: Option<int>,
    mode: ContainerMode,
) -> bool {
    match mode {
        ContainerMode::Any => true,
        ContainerMode::NoneOnly => !spec_contains(attrs, "userContextId="@),
        ContainerMode::Specific => match id {
            None => false,
            Some(ctx) => spec_ends_with(attrs, spec_context_token(ctx)) || spec_contains(
                attrs,
                spec_context_token(ctx) + seq!['&'],
            ),
        },
    }
}

/// Tests one row's `originAttributes` against the container filter.
pub fn row_in_container(attrs: &str, id: Option<i64>, mode: &ContainerMode) -> (r: bool)
    ensures
        r == spec_row_in_container(
            attrs@,
            match id {
                Some(v) => Some(v as int),
                None => None,
            },
            *mode,
        ),
{
    match mode {
        ContainerMode::Any => true,
        ContainerMode::NoneOnly => !contains_sub(attrs, "userContextId="),
        ContainerMode::Specific => {
            let ctx = match id {
                Some(ctx) => ctx,
                None => {
                    return false;
                },
            };
            let mut token = "userContextId=".to_owned();
            token.append(i64_to_dec(ctx).as_str());
            if ends_with_str(attrs, token.as_str()) {
                return true;
            }
            let mut amp = token;
            amp.append("&");
            proof {
                reveal_strlit("&");
                assert("&"@ =~= seq!['&']);
            }
            contains_sub(attrs, amp.as_str())
        },
    }
}

/// Expiry across schema generations: milliseconds from version 16 on,
/// seconds before; a missing or non-positive stamp means no expiry.
pub open spec fn spec_firefox_expires(expiry: Option<int>, schema_version: int) -> Option<int> {
    match expiry {
        None => None,
        Some(e) => if e <= 0 {
            None
        } else {
            let seconds = if schema_version >= 16 {
                e / 1000
            } else {
                e
            };
            if seconds <= 0 {
                None
            } else {
                Some(seconds)
            }
        },
    }
}

pub fn firefox_expires_to_unix_seconds(expiry: Option<i64>, schema_version: i64) -> (r: Option<
    i64,
>)
    ensures
        match r {
            Some(v) => spec_firefox_expires(
                match expiry {
                    Some(e) => Some(e as int),
                    None => None,
                },
                schema_version as int,
            ) == Some(v as int),
            None => spec_firefox_expires(
                match expiry {
                    Some(e) => Some(e as int),
                    None => None,
                },
                schema_version as int,
            ) is None,
        },
{
    let e = match expiry {
        Some(e) => e,
        None => {
            return None;
        },
    };
    if e <= 0 {
        return None;
    }
    let seconds = if schema_version >= 16 {
        e / 1000
    } else {
        e
    };
    if seconds <= 0 {
        None
    } else {
        Some(seconds)
    }
}

/// Model of one queried row of `moz_cookies`.
pub ghost struct FirefoxRowModel {
    pub host: Seq<char>,
    pub name: Seq<char>,
    pub value: Seq<char>,
    pub path: Seq<char>,
    pub expiry: Option<int>,
    pub secure: int,
    pub http_only: int,
    pub origin_attributes: Seq<char>,
}

/// One row of `moz_cookies`, as the application queried it.
pub struct FirefoxRow {
    pub host: String,
    pub name: String,
    pub value: String,
    pub path: String,
    pub expiry: Option<i64>,
    pub secure: i64,
    pub http_only: i64,
    pub origin_attributes: String,
}

impl View for FirefoxRow {
    type V = FirefoxRowModel;

    open spec fn view(&self) -> FirefoxRowModel {
        FirefoxRowModel {
            host: self.host@,
            name: self.name@,
            value: self.value@,
            path: self.path@,
            expiry: match self.expiry {
                Some(e) => Some(e as int),
                None => None,
            },
            secure: self.secure as int,
            http_only: self.http_only as int,
            origin_attributes: self.origin_attributes@,
        }
    }
}

/// What one row contributes: its fields as stored, the expiry converted by
/// schema generation; rows with an empty name or host are dropped.
pub open spec fn spec_ff_row_cookie(row: FirefoxRowModel, schema_version: int) -> Option<
    CookieModel,
> {
    if row.name.len() == 0 || row.host.len() == 0 {
        None
    } else {
        Some(
            CookieModel {
                name: row.name,
                value: row.value,
                domain: row.host,
                path: row.path,
                secure: row.secure != 0,
                http_only: row.http_only != 0,
                expires: spec_firefox_expires(row.expiry, schema_version),
            },
        )
    }
}

/// Converts one queried row.
pub fn row_to_cookie(row: &FirefoxRow, schema_version: i64) -> (r: Option<Cookie>)
    ensures
        match r {
            Some(c) => spec_ff_row_cookie(row@, schema_version as int) == Some(c@) && c@.wf(),
            None => spec_ff_row_cookie(row@, schema_version as int) is None,
        },
{
    if row.name.as_str().unicode_len() == 0 || row.host.as_str().unicode_len() == 0 {
        return None;
    }
    Some(
        Cookie {
            name: row.name.clone(),
            value: row.value.clone(),
            domain: row.host.clone(),
            path: row.path.clone(),
            secure: row.secure != 0,
            http_only: row.http_only != 0,
            expires: firefox_expires_to_unix_seconds(row.expiry, schema_version),
        },
    )
}

/// The cookies a whole row set yields: the rows inside the requested
/// container, converted, in row order.
pub open spec fn spec_firefox_store(
    rows: Seq<FirefoxRowModel>,
    schema_version: int,
    id: Option<int>,
    mode: ContainerMode,
) -> Seq<CookieModel>
    decreases rows.len(),
{
    if rows.len() == 0 {
        Seq::empty()
    } else {
        let prefix = spec_firefox_store(rows.drop_last(), schema_version, id, mode);
        let row = rows.last();
        if spec_row_in_container(row.origin_attributes, id, mode) {
            match spec_ff_row_cookie(row, schema_version) {
                None => prefix,
                Some(c) => prefix.push(c),
            }
        } else {
            prefix
        }
    }
}

/// Model views of a row slice.
pub open spec fn ff_row_views(rows: Seq<FirefoxRow>) -> Seq<FirefoxRowModel> {
    Seq::new(rows.len(), |i: int| rows[i]@)
}

/// Builds the store from the queried rows.  A specific container request
/// without a resolved id, and a row set that yields no cookie at all, are
/// extraction failures — the latter deliberately, being indistinguishable
/// from a wrong profile.
pub fn extract_cookies(
    rows: &Vec<FirefoxRow>,
    schema_version: i64,
    container_id: Option<i64>,
    mode: &ContainerMode,
) -> (r: Result<CookieStore, RurlError>)
    ensures
        ({
            let id = match container_id {
                Some(v) => Some(v as int),
                None => None::<int>,
            };
            match r {
                Ok(store) => {
                    &&& store@ == spec_firefox_store(
                        ff_row_views(rows@),
                        schema_version as int,
                        id,
                        *mode,
                    )
                    &&& store@.len() > 0
                    &&& store.wf()
                    &&& !(mode is Specific && container_id is None)
                },
                Err(e) => e is BrowserCookie && ((mode is Specific && container_id is None)
                    || spec_firefox_store(ff_row_views(rows@), schema_version as int, id, *mode)
                    =~= Seq::<CookieModel>::empty()),
            }
        }),
{
    if let ContainerMode::Specific = mode {
        if container_id.is_none() {
            return Err(
                RurlError::BrowserCookie("Firefox container id not resolved".to_owned()),
            );
        }
    }
    let mut store = CookieStore::new();
    let len: usize = rows.len();
    let mut i: usize = 0;
    while i < len
        invariant
            i <= len,
            len == rows@.len(),
            store.wf(),
            store@ =~= spec_firefox_store(
                ff_row_views(rows@.subrange(0, i as int)),
                schema_version as int,
                match container_id {
                    Some(v) => Some(v as int),
                    None => None::<int>,
                },
                *mode,
            ),
        decreases len - i,
    {
        proof {
            assert(ff_row_views(rows@.subrange(0, i + 1)).drop_last() =~= ff_row_views(
                rows@.subrange(0, i as int),
            ));
            assert(ff_row_views(rows@.subrange(0, i + 1)).last() == rows@[i as int]@);
        }
        let row = &rows[i];
        if row_in_container(row.origin_attributes.as_str(), container_id, mode) {
            match row_to_cookie(row, schema_version) {
                Some(cookie) => {
                    store.insert(cookie);
                },
                None => {},
            }
        }
        i = i + 1;
    }
    proof {
        assert(rows@.subrange(0, len as int) =~= rows@);
    }
    if store.is_empty() {
        return Err(
            RurlError::BrowserCookie("No Firefox cookies could be extracted".to_owned()),
        );
    }
    Ok(store)
}

} // verus!
