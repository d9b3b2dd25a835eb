//! Clicks on the license buttons.

use crate::api_client::toggled;
use crate::ident::{parse_uuid, uuid_of_text};
use crate::session::actor::LicenseField;
use crate::session::{Button, ButtonLook};
use crate::text::same_text;
use vstd::prelude::*;

verus! {

/// The restriction that a button stands for.
pub open spec fn field_of(custom_id: Seq<char>) -> Option<LicenseField> {
    if custom_id == "license_no_llm"@ {
        Some(LicenseField::NoLlmTraining)
    } else if custom_id == "license_no_public"@ {
        Some(LicenseField::NoPublicRelease)
    } else {
        None
    }
}

/// The restriction that a button stands for.
pub fn license_click(custom_id: &str) -> (f: Option<LicenseField>)
    ensures
        f == field_of(custom_id@),
{
    if same_text(custom_id, "license_no_llm") {
        Some(LicenseField::NoLlmTraining)
    } else if same_text(custom_id, "license_no_public") {
        Some(LicenseField::NoPublicRelease)
    } else {
        None
    }
}

/// What the data API calls a restriction.
pub open spec fn field_text(field: LicenseField) -> Seq<char> {
    match field {
        LicenseField::NoLlmTraining => "no_llm_training"@,
        LicenseField::NoPublicRelease => "no_public_release"@,
    }
}

/// What the data API calls a restriction.
pub fn field_name(field: LicenseField) -> (n: &'static str)
    ensures
        n@ == field_text(field),
{
    match field {
        LicenseField::NoLlmTraining => "no_llm_training",
        LicenseField::NoPublicRelease => "no_public_release",
    }
}

/// The flags before `field` was flipped, given those after.
pub open spec fn flags_before(field: LicenseField, new_llm: bool, new_public: bool) -> (bool, bool) {
    match field {
        LicenseField::NoLlmTraining => (!new_llm, new_public),
        LicenseField::NoPublicRelease => (new_llm, !new_public),
    }
}

/// How the data API is told of a flip.
pub enum LicenseSync {
    /// By the participant's row. The server flips the same way from the flags
    /// before.
    ById { participant: u128, field: &'static str, no_llm: bool, no_public: bool },
    /// By session and user.
    ByUser { session: u128, user: u64, field: &'static str },
    /// Not at all: neither the row nor the session is known.
    Nothing,
}

/// How the data API is told that `field` was flipped, with the given flags after
/// it.
pub fn license_sync(
    cached_pid: Option<u128>,
    session_id: &str,
    user: u64,
    field: LicenseField,
    new_llm: bool,
    new_public: bool,
) -> (s: LicenseSync)
    ensures
        match s {
            LicenseSync::ById { participant, field: name, no_llm, no_public } => {
                &&& cached_pid == Some(participant)
                &&& name@ == field_text(field)
                &&& (no_llm, no_public) == flags_before(field, new_llm, new_public)
            },
            LicenseSync::ByUser { session, user: u, field: name } => {
                &&& cached_pid is None
                &&& uuid_of_text(session_id@) == Some(session)
                &&& u == user
                &&& name@ == field_text(field)
            },
            LicenseSync::Nothing => cached_pid is None && uuid_of_text(session_id@) is None,
        },
{
    let name = field_name(field);
    match cached_pid {
        Some(participant) => {
            let (no_llm, no_public) = match field {
                LicenseField::NoLlmTraining => (!new_llm, new_public),
                LicenseField::NoPublicRelease => (new_llm, !new_public),
            };
            LicenseSync::ById { participant, field: name, no_llm, no_public }
        },
        None => match parse_uuid(session_id) {
            Ok(session) => LicenseSync::ByUser { session, user, field: name },
            Err(_) => LicenseSync::Nothing,
        },
    }
}

/// The change that the server makes to the flags before the click leads to the
/// flags that the buttons show.
pub proof fn law_sync_reaches_shown_flags(field: LicenseField, new_llm: bool, new_public: bool)
    ensures
        ({
            let before = flags_before(field, new_llm, new_public);
            toggled(field_text(field), before.0, before.1) matches Some(p) && p.applied(before) == (
                new_llm,
                new_public,
            )
        }),
{
    reveal_strlit("no_llm_training");
    reveal_strlit("no_public_release");
    assert("no_llm_training"@.len() == 15);
    assert("no_public_release"@.len() == 17);
}

/// The license buttons: a restriction that is on is marked and stands out.
pub fn build_license_buttons(no_llm: bool, no_public: bool) -> (row: Vec<Button>)
    ensures
        row@.len() == 2,
        row@[0].reads(
            "license_no_llm"@,
            if no_llm {
                "No LLM Training \u{2713}"@
            } else {
                "No LLM Training"@
            },
            if no_llm {
                ButtonLook::Danger
            } else {
                ButtonLook::Secondary
            },
        ),
        row@[1].reads(
            "license_no_public"@,
            if no_public {
                "No Public Release \u{2713}"@
            } else {
                "No Public Release"@
            },
            if no_public {
                ButtonLook::Danger
            } else {
                ButtonLook::Secondary
            },
        ),
{
    let llm = if no_llm {
        Button::new("license_no_llm", "No LLM Training \u{2713}", ButtonLook::Danger)
    } else {
        Button::new("license_no_llm", "No LLM Training", ButtonLook::Secondary)
    };
    let public = if no_public {
        Button::new("license_no_public", "No Public Release \u{2713}", ButtonLook::Danger)
    } else {
        Button::new("license_no_public", "No Public Release", ButtonLook::Secondary)
    };
    let mut row: Vec<Button> = Vec::new();
    row.push(llm);
    row.push(public);
    row
}

} // verus!
