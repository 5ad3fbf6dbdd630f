//! Signing in.

use vstd::prelude::*;

use crate::text::{characters, trim, trimmed};
use crate::tg::AuthState;

verus! {

/// What can be asked for while signing in.
#[derive(Debug, PartialEq, Eq)]
pub enum AuthAction {
    SubmitPhone(String),
    SubmitCode(String),
    SubmitPassword(String),
    SubmitCredentials { api_id: i32, api_hash: String },
    RetryStart,
}

/// Whether a character is a decimal digit.
pub open spec fn is_digit(ch: char) -> bool {
    '0' <= ch <= '9'
}

/// Whether a character is a hexadecimal digit.
pub open spec fn is_hex_digit(ch: char) -> bool {
    is_digit(ch) || 'a' <= ch <= 'f' || 'A' <= ch <= 'F'
}

/// Whether a text holds nothing but digits.
pub open spec fn all_digits(text: Seq<char>) -> bool {
    forall|i: int| 0 <= i < text.len() ==> is_digit(#[trigger] text[i])
}

/// The number that some digits stand for.
pub open spec fn number_of(text: Seq<char>) -> int
    decreases text.len(),
{
    if text.len() == 0 {
        0
    } else {
        number_of(text.drop_last()) * 10 + (text.last() as int - '0' as int)
    }
}

proof fn lemma_number_grows(text: Seq<char>, count: int)
    requires
        0 <= count <= text.len(),
        all_digits(text),
    ensures
        0 <= number_of(text.take(count)) <= number_of(text),
    decreases text.len(),
{
    if text.len() == 0 {
        assert(text.take(count) =~= text);
    } else {
        let rest = text.drop_last();
        assert forall|i: int| 0 <= i < rest.len() implies is_digit(#[trigger] rest[i]) by {
            assert(is_digit(text[i]));
        }
        assert(is_digit(text[text.len() - 1]));
        if count < text.len() {
            lemma_number_grows(rest, count);
            assert(rest.take(count) =~= text.take(count));
        } else {
            lemma_number_grows(rest, rest.len() as int);
            assert(rest.take(rest.len() as int) =~= rest);
            assert(text.take(count) =~= text);
        }
    }
}

/// The application id that a text holds: nothing but digits, and a positive number.
pub open spec fn api_id_of(text: Seq<char>) -> Option<int> {
    let digits = trimmed(text);
    if digits.len() > 0 && all_digits(digits) && 0 < number_of(digits) <= i32::MAX {
        Some(number_of(digits))
    } else {
        None
    }
}

/// Reads an application id.
pub fn parse_api_id(text: &str) -> (id: Option<i32>)
    ensures
        match id {
            Some(id) => api_id_of(text@) == Some(id as int),
            None => api_id_of(text@) is None,
        },
{
    let digits = trim(text);
    let chars = characters(&digits);
    if chars.len() == 0 {
        return None;
    }
    let mut i: usize = 0;
    while i < chars.len()
        invariant
            i <= chars@.len(),
            chars@ == trimmed(text@),
            forall|j: int| 0 <= j < i ==> is_digit(#[trigger] chars@[j]),
        decreases chars@.len() - i,
    {
        if !('0' <= chars[i] && chars[i] <= '9') {
            assert(!is_digit(chars@[i as int]));
            return None;
        }
        i += 1;
    }
    let mut value: u64 = 0;
    let mut at: usize = 0;
    assert(chars@.take(0) =~= Seq::<char>::empty());
    while at < chars.len()
        invariant
            at <= chars@.len(),
            chars@ == trimmed(text@),
            all_digits(chars@),
            value <= 0x7fff_ffff,
            value == number_of(chars@.take(at as int)),
        decreases chars@.len() - at,
    {
        proof {
            assert(chars@.take(at + 1).drop_last() =~= chars@.take(at as int));
            assert(chars@.take(at + 1).last() == chars@[at as int]);
            assert(is_digit(chars@[at as int]));
        }
        let digit: u64 = chars[at] as u64 - '0' as u64;
        value = value * 10 + digit;
        if value > 0x7fff_ffff {
            proof {
                lemma_number_grows(chars@, at + 1);
            }
            return None;
        }
        at += 1;
    }
    assert(chars@.take(at as int) =~= chars@);
    if value == 0 {
        return None;
    }
    Some(value as i32)
}

/// Whether a text is an application hash: 32 hexadecimal digits.
pub open spec fn is_api_hash(text: Seq<char>) -> bool {
    &&& trimmed(text).len() == 32
    &&& forall|i: int| 0 <= i < 32 ==> is_hex_digit(#[trigger] trimmed(text)[i])
}

pub fn valid_api_hash_text(text: &str) -> (valid: bool)
    ensures
        valid == is_api_hash(text@),
{
    let hash = trim(text);
    let chars = characters(&hash);
    if chars.len() != 32 {
        return false;
    }
    let mut i: usize = 0;
    while i < chars.len()
        invariant
            i <= chars@.len(),
            chars@.len() == 32,
            chars@ == trimmed(text@),
            forall|j: int| 0 <= j < i ==> is_hex_digit(#[trigger] chars@[j]),
        decreases chars@.len() - i,
    {
        let ch = chars[i];
        let hex = ('0' <= ch && ch <= '9') || ('a' <= ch && ch <= 'f') || ('A' <= ch && ch <= 'F');
        if !hex {
            assert(!is_hex_digit(trimmed(text@)[i as int]));
            return false;
        }
        i += 1;
    }
    true
}

/// Which characters are digits.
pub open spec fn digits_only() -> spec_fn(char) -> bool {
    |ch: char| is_digit(ch)
}

/// What is taken of a text that is typed or pasted into the field for the id.
pub fn digits_in(text: &str) -> (digits: String)
    ensures
        digits@ == text@.filter(digits_only()),
{
    let chars = characters(text);
    let ghost keep = digits_only();
    let mut digits = String::new();
    let mut i: usize = 0;
    proof {
        reveal(Seq::filter);
        assert(chars@.take(0) =~= Seq::<char>::empty());
    }
    while i < chars.len()
        invariant
            i <= chars@.len(),
            chars@ == text@,
            keep == digits_only(),
            digits@ == chars@.take(i as int).filter(keep),
        decreases chars@.len() - i,
    {
        proof {
            reveal(Seq::filter);
            assert(chars@.take(i + 1).drop_last() =~= chars@.take(i as int));
        }
        if '0' <= chars[i] && chars[i] <= '9' {
            digits.push(chars[i]);
        }
        i += 1;
    }
    assert(chars@.take(i as int) =~= chars@);
    digits
}

/// The form for the application's id and hash.
pub struct CredentialsForm {
    pub id_text: String,
    pub hash_text: String,
    pub fields_sensitive: bool,
    pub submit_sensitive: bool,
    pub error: String,
    pub error_visible: bool,
    pub busy: bool,
}

impl CredentialsForm {
    /// Whether both fields are filled in properly.
    pub open spec fn complete(self) -> bool {
        api_id_of(self.id_text@) is Some && is_api_hash(self.hash_text@)
    }

    /// The form can be sent exactly when it is complete and not being sent, and its
    /// fields can be changed exactly when it is not being sent.
    pub open spec fn well_formed(self) -> bool {
        &&& self.submit_sensitive == (self.complete() && !self.busy)
        &&& self.fields_sensitive == !self.busy
    }

    pub fn new() -> (form: CredentialsForm)
        ensures
            form.well_formed(),
            form.id_text@.len() == 0,
            form.hash_text@.len() == 0,
            !form.busy,
            form.error@.len() == 0,
            !form.error_visible,
    {
        let mut form = CredentialsForm {
            id_text: String::new(),
            hash_text: String::new(),
            fields_sensitive: true,
            submit_sensitive: false,
            error: String::new(),
            error_visible: false,
            busy: false,
        };
        form.refresh();
        form
    }

    fn valid(&self) -> (values: Option<(i32, String)>)
        ensures
            match values {
                Some((id, hash)) => self.complete() && api_id_of(self.id_text@) == Some(id as int)
                    && hash@ == trimmed(self.hash_text@),
                None => !self.complete(),
            },
    {
        let id = match parse_api_id(&self.id_text) {
            Some(id) => id,
            None => return None,
        };
        if valid_api_hash_text(&self.hash_text) {
            Some((id, trim(&self.hash_text)))
        } else {
            None
        }
    }

    fn refresh(&mut self)
        ensures
            *final(self) == (CredentialsForm {
                submit_sensitive: old(self).complete() && !old(self).busy,
                ..*old(self)
            }),
    {
        let valid = self.valid().is_some();
        self.submit_sensitive = valid && !self.busy;
    }

    /// The text in the field for the id changed. Only digits are taken.
    pub fn set_id_text(&mut self, text: &str)
        requires
            old(self).well_formed(),
        ensures
            final(self).well_formed(),
            final(self).id_text@ == text@.filter(digits_only()),
            *final(self) == (CredentialsForm {
                id_text: final(self).id_text,
                submit_sensitive: final(self).submit_sensitive,
                ..*old(self)
            }),
    {
        self.id_text = digits_in(text);
        self.refresh();
    }

    /// The text in the field for the hash changed.
    pub fn set_hash_text(&mut self, text: &str)
        requires
            old(self).well_formed(),
        ensures
            final(self).well_formed(),
            final(self).hash_text@ == text@,
            *final(self) == (CredentialsForm {
                hash_text: final(self).hash_text,
                submit_sensitive: final(self).submit_sensitive,
                ..*old(self)
            }),
    {
        self.hash_text = text.to_owned();
        self.refresh();
    }

    /// Sends the form, unless it is incomplete or being sent.
    pub fn do_submit(&mut self) -> (values: Option<(i32, String)>)
        requires
            old(self).well_formed(),
        ensures
            final(self).well_formed(),
            values is Some <==> old(self).complete() && !old(self).busy,
            values is None ==> *final(self) == *old(self),
            match values {
                Some((id, hash)) => {
                    &&& api_id_of(old(self).id_text@) == Some(id as int)
                    &&& hash@ == trimmed(old(self).hash_text@)
                    &&& *final(self) == (CredentialsForm {
                        busy: true,
                        fields_sensitive: false,
                        submit_sensitive: false,
                        error_visible: false,
                        ..*old(self)
                    })
                },
                None => true,
            },
    {
        if self.busy {
            return None;
        }
        let values = match self.valid() {
            Some(values) => values,
            None => return None,
        };
        self.busy = true;
        self.fields_sensitive = false;
        self.submit_sensitive = false;
        self.error_visible = false;
        Some(values)
    }

    /// Shows what went wrong. Both fields keep what they hold.
    pub fn show_error(&mut self, message: &str)
        requires
            old(self).well_formed(),
        ensures
            final(self).well_formed(),
            final(self).error@ == message@,
            final(self).error_visible,
            *final(self) == (CredentialsForm {
                error: final(self).error,
                error_visible: true,
                busy: false,
                fields_sensitive: true,
                submit_sensitive: old(self).complete(),
                ..*old(self)
            }),
    {
        self.error = message.to_owned();
        self.error_visible = true;
        self.clear_busy();
    }

    /// The form is not being sent any more.
    pub fn clear_busy(&mut self)
        ensures
            final(self).well_formed(),
            *final(self) == (CredentialsForm {
                busy: false,
                fields_sensitive: true,
                submit_sensitive: old(self).complete(),
                ..*old(self)
            }),
    {
        self.busy = false;
        self.fields_sensitive = true;
        self.refresh();
    }

    /// Forgets what was filled in.
    pub fn clear_values(&mut self)
        ensures
            final(self).well_formed(),
            final(self).id_text@.len() == 0,
            final(self).hash_text@.len() == 0,
            *final(self) == (CredentialsForm {
                id_text: final(self).id_text,
                hash_text: final(self).hash_text,
                busy: false,
                fields_sensitive: true,
                submit_sensitive: false,
                ..*old(self)
            }),
    {
        self.id_text = String::new();
        self.hash_text = String::new();
        self.clear_busy();
        proof {
            assert(trimmed(self.hash_text@).len() <= 0) by {
                assert(self.hash_text@ =~= Seq::<char>::empty());
                reveal_with_fuel(crate::text::without_leading_space, 2);
                reveal_with_fuel(crate::text::without_trailing_space, 2);
            }
        }
    }

    /// Fills in both fields.
    pub fn probe_set(&mut self, api_id: &str, api_hash: &str)
        requires
            old(self).well_formed(),
        ensures
            final(self).well_formed(),
            final(self).id_text@ == api_id@.filter(digits_only()),
            final(self).hash_text@ == api_hash@,
            *final(self) == (CredentialsForm {
                id_text: final(self).id_text,
                hash_text: final(self).hash_text,
                submit_sensitive: final(self).submit_sensitive,
                ..*old(self)
            }),
    {
        self.set_id_text(api_id);
        self.set_hash_text(api_hash);
    }

    pub fn probe_submit_sensitive(&self) -> (sensitive: bool)
        ensures
            sensitive == self.submit_sensitive,
    {
        self.submit_sensitive
    }

    pub fn probe_error(&self) -> (error: Option<String>)
        ensures
            error == (if self.error_visible { Some(self.error) } else { None }),
    {
        if self.error_visible {
            Some(self.error.clone())
        } else {
            None
        }
    }

    pub fn probe_values(&self) -> (values: (String, String))
        ensures
            values == (self.id_text, self.hash_text),
    {
        (self.id_text.clone(), self.hash_text.clone())
    }
}

/// What is typed into the field.
#[derive(Debug, Clone, Copy, PartialEq, Eq, Structural)]
pub enum Purpose {
    FreeForm,
    Phone,
    Password,
}

/// Which parts of the view are shown.
#[derive(Debug, Clone, Copy, PartialEq, Eq, Structural)]
pub struct AuthParts {
    pub progress: bool,
    pub field_label: bool,
    pub link: bool,
    pub entry: bool,
    pub credentials: bool,
    pub error: bool,
    pub button: bool,
}

/// What the view says.
pub struct AuthTexts {
    pub title: String,
    pub progress: String,
    pub field_label: String,
    pub hint: String,
    pub placeholder: String,
}

impl AuthTexts {
    /// Whether the view says this.
    pub open spec fn says(
        self,
        title: Seq<char>,
        progress: Seq<char>,
        field_label: Seq<char>,
        hint: Seq<char>,
        placeholder: Seq<char>,
    ) -> bool {
        &&& self.title@ == title
        &&& self.progress@ == progress
        &&& self.field_label@ == field_label
        &&& self.hint@ == hint
        &&& self.placeholder@ == placeholder
    }

    /// What the view says in a step.
    pub open spec fn of_step(self, state: AuthState) -> bool {
        match state {
            AuthState::NeedPhone => self.says(
                "Sign in"@,
                "1 · Phone   →   2 · Code   →   3 · Password if needed"@,
                "Phone number"@,
                "Enter your phone number with country code."@,
                "+123456789"@,
            ),
            AuthState::NeedCode => self.says(
                "Verification code"@,
                "2 · Code   →   3 · Password if needed"@,
                "Telegram code"@,
                "Check Telegram on a device where you are signed in, or the delivery method Telegram offers for your account."@,
                "Code"@,
            ),
            AuthState::NeedPassword => self.says(
                "Two-step verification"@,
                "3 · Password"@,
                "Two-step verification password"@,
                "Enter your Telegram password."@,
                "Password"@,
            ),
            _ => true,
        }
    }
}

/// The view.
pub struct AuthView {
    pub state: AuthState,
    pub busy: bool,
    /// Whether the button starts the application over.
    pub retry_start: bool,
    pub texts: AuthTexts,
    pub parts: AuthParts,
    pub entry_text: String,
    pub entry_sensitive: bool,
    /// Whether what is typed can be read.
    pub entry_readable: bool,
    pub purpose: Purpose,
    pub button_retries: bool,
    pub button_sensitive: bool,
    pub error: String,
    pub creds: CredentialsForm,
}

/// Whether a step has the one field.
pub open spec fn has_field(state: AuthState) -> bool {
    state is NeedPhone || state is NeedCode || state is NeedPassword
}

fn step_texts(state: AuthState) -> (texts: Option<AuthTexts>)
    ensures
        texts is Some <==> has_field(state),
        texts is Some ==> texts->0.of_step(state),
{
    match state {
        AuthState::NeedPhone => Some(
            AuthTexts {
                title: "Sign in".to_owned(),
                progress: "1 · Phone   →   2 · Code   →   3 · Password if needed".to_owned(),
                field_label: "Phone number".to_owned(),
                hint: "Enter your phone number with country code.".to_owned(),
                placeholder: "+123456789".to_owned(),
            },
        ),
        AuthState::NeedCode => Some(
            AuthTexts {
                title: "Verification code".to_owned(),
                progress: "2 · Code   →   3 · Password if needed".to_owned(),
                field_label: "Telegram code".to_owned(),
                hint: "Check Telegram on a device where you are signed in, or the delivery method Telegram offers for your account.".to_owned(),
                placeholder: "Code".to_owned(),
            },
        ),
        AuthState::NeedPassword => Some(
            AuthTexts {
                title: "Two-step verification".to_owned(),
                progress: "3 · Password".to_owned(),
                field_label: "Two-step verification password".to_owned(),
                hint: "Enter your Telegram password.".to_owned(),
                placeholder: "Password".to_owned(),
            },
        ),
        _ => None,
    }
}

impl AuthView {
    /// The form for the application's values is in order.
    pub open spec fn well_formed(self) -> bool {
        self.creds.well_formed()
    }

    /// What the view is in a step.
    pub open spec fn in_step(self, before: AuthView, state: AuthState) -> bool {
        &&& self.state == state
        &&& !self.busy
        &&& !self.retry_start
        &&& self.entry_sensitive
        &&& self.button_sensitive
        &&& self.parts == (AuthParts {
            progress: true,
            field_label: true,
            link: false,
            entry: true,
            credentials: false,
            error: false,
            button: true,
        })
        &&& self.entry_readable == !(state is NeedPassword)
        &&& self.purpose == (match state {
            AuthState::NeedPhone => Purpose::Phone,
            AuthState::NeedPassword => Purpose::Password,
            _ => Purpose::FreeForm,
        })
        &&& self.creds == before.creds
        &&& self.error == before.error
        &&& if has_field(state) {
            &&& self.texts.of_step(state)
            &&& !self.button_retries
            &&& self.entry_text@.len() == 0
        } else {
            &&& self.texts == before.texts
            &&& self.button_retries == before.button_retries
            &&& self.entry_text == before.entry_text
        }
    }

    pub fn new() -> (view: AuthView)
        ensures
            view.well_formed(),
            view.in_step(view, AuthState::NeedPhone),
            view.creds.id_text@.len() == 0,
            view.creds.hash_text@.len() == 0,
            !view.creds.busy,
            view.creds.error@.len() == 0,
            !view.creds.error_visible,
            view.error@.len() == 0,
    {
        let mut view = AuthView {
            state: AuthState::NeedPhone,
            busy: false,
            retry_start: false,
            texts: AuthTexts {
                title: String::new(),
                progress: String::new(),
                field_label: String::new(),
                hint: String::new(),
                placeholder: String::new(),
            },
            parts: AuthParts {
                progress: true,
                field_label: true,
                link: false,
                entry: true,
                credentials: false,
                error: false,
                button: true,
            },
            entry_text: String::new(),
            entry_sensitive: true,
            entry_readable: true,
            purpose: Purpose::FreeForm,
            button_retries: false,
            button_sensitive: true,
            error: String::new(),
            creds: CredentialsForm::new(),
        };
        view.show_step(AuthState::NeedPhone);
        view
    }

    /// Shows a step.
    pub fn show_step(&mut self, state: AuthState)
        requires
            old(self).well_formed(),
        ensures
            final(self).well_formed(),
            final(self).in_step(*old(self), state),
    {
        self.state = state;
        self.busy = false;
        self.retry_start = false;
        self.entry_sensitive = true;
        self.button_sensitive = true;
        self.parts = AuthParts {
            progress: true,
            field_label: true,
            link: false,
            entry: true,
            credentials: false,
            error: false,
            button: true,
        };
        self.entry_readable = !matches!(state, AuthState::NeedPassword);
        self.purpose = match state {
            AuthState::NeedPhone => Purpose::Phone,
            AuthState::NeedPassword => Purpose::Password,
            _ => Purpose::FreeForm,
        };
        if let Some(texts) = step_texts(state) {
            self.texts = texts;
            self.button_retries = false;
            self.entry_text = String::new();
        }
    }

    /// The text in the field changed.
    pub fn set_entry(&mut self, text: &str)
        ensures
            final(self).entry_text@ == text@,
            *final(self) == (AuthView { entry_text: final(self).entry_text, ..*old(self) }),
    {
        self.entry_text = text.to_owned();
    }

    /// The button or the Return key was pressed. Returns what is asked for. Nothing
    /// is, while something is under way.
    pub fn submit(&mut self) -> (action: Option<AuthAction>)
        ensures
            old(self).busy ==> action is None && *final(self) == *old(self),
            !old(self).busy ==> (action is Some <==> old(self).retry_start || has_field(
                old(self).state,
            )),
            !old(self).busy && action is None ==> *final(self) == (AuthView {
                retry_start: false,
                ..*old(self)
            }),
            action is Some ==> {
                &&& old(self).retry_start ==> action->0 is RetryStart
                &&& !old(self).retry_start ==> match old(self).state {
                    AuthState::NeedPhone => action->0 == AuthAction::SubmitPhone(
                        old(self).entry_text,
                    ),
                    AuthState::NeedCode => action->0 == AuthAction::SubmitCode(
                        old(self).entry_text,
                    ),
                    _ => action->0 == AuthAction::SubmitPassword(old(self).entry_text),
                }
                &&& *final(self) == (AuthView {
                    busy: true,
                    retry_start: false,
                    entry_sensitive: false,
                    button_sensitive: false,
                    ..*old(self)
                })
            },
    {
        if self.busy {
            return None;
        }
        let retry = self.retry_start;
        self.retry_start = false;
        let action = if retry {
            AuthAction::RetryStart
        } else {
            let value = self.entry_text.clone();
            match self.state {
                AuthState::NeedPhone => AuthAction::SubmitPhone(value),
                AuthState::NeedCode => AuthAction::SubmitCode(value),
                AuthState::NeedPassword => AuthAction::SubmitPassword(value),
                AuthState::NeedCredentials | AuthState::Ready => return None,
            }
        };
        self.busy = true;
        self.entry_sensitive = false;
        self.button_sensitive = false;
        Some(action)
    }

    /// The form for the application's values is sent.
    pub fn submit_credentials(&mut self) -> (action: Option<AuthAction>)
        requires
            old(self).well_formed(),
        ensures
            final(self).well_formed(),
            action is Some <==> old(self).creds.complete() && !old(self).creds.busy,
            action is None ==> *final(self) == *old(self),
            match action {
                Some(AuthAction::SubmitCredentials { api_id, api_hash }) => {
                    &&& api_id_of(old(self).creds.id_text@) == Some(api_id as int)
                    &&& api_hash@ == trimmed(old(self).creds.hash_text@)
                },
                Some(_) => false,
                None => true,
            },
            action is Some ==> final(self).busy && final(self).creds == (CredentialsForm {
                busy: true,
                fields_sensitive: false,
                submit_sensitive: false,
                error_visible: false,
                ..old(self).creds
            }),
            *final(self) == (AuthView {
                busy: final(self).busy,
                creds: final(self).creds,
                ..*old(self)
            }),
    {
        match self.creds.do_submit() {
            Some((api_id, api_hash)) => {
                self.busy = true;
                Some(AuthAction::SubmitCredentials { api_id, api_hash })
            },
            None => None,
        }
    }

    /// Asks for the application's values.
    pub fn show_credentials(&mut self)
        requires
            old(self).well_formed(),
        ensures
            final(self).well_formed(),
            final(self).state is NeedCredentials,
            !final(self).busy,
            !final(self).retry_start,
            final(self).texts.says(
                "Connect to Telegram"@,
                "Setup   →   Phone   →   Code   →   Password if needed"@,
                old(self).texts.field_label@,
                "Omarchygram needs your own Telegram API credentials to connect.\nOpen the link below, sign in, choose API development tools, and create an application. Copy its API ID and API hash here. These identify the app; your phone and verification code come next."@,
                old(self).texts.placeholder@,
            ),
            final(self).parts == (AuthParts {
                progress: true,
                field_label: false,
                link: true,
                entry: false,
                credentials: true,
                error: false,
                button: false,
            }),
            final(self).creds == (CredentialsForm {
                busy: false,
                fields_sensitive: true,
                submit_sensitive: old(self).creds.complete(),
                ..old(self).creds
            }),
            *final(self) == (AuthView {
                state: final(self).state,
                busy: false,
                retry_start: false,
                texts: final(self).texts,
                parts: final(self).parts,
                creds: final(self).creds,
                ..*old(self)
            }),
    {
        self.state = AuthState::NeedCredentials;
        self.busy = false;
        self.retry_start = false;
        self.texts.title = "Connect to Telegram".to_owned();
        self.texts.progress = "Setup   →   Phone   →   Code   →   Password if needed".to_owned();
        self.texts.hint = "Omarchygram needs your own Telegram API credentials to connect.\nOpen the link below, sign in, choose API development tools, and create an application. Copy its API ID and API hash here. These identify the app; your phone and verification code come next.".to_owned();
        self.parts = AuthParts {
            progress: true,
            field_label: false,
            link: true,
            entry: false,
            credentials: true,
            error: false,
            button: false,
        };
        self.creds.clear_busy();
    }

    /// The application could not start.
    pub fn show_start_error(&mut self, message: &str)
        requires
            old(self).well_formed(),
        ensures
            final(self).well_formed(),
            final(self).texts.says(
                "Connection failed"@,
                old(self).texts.progress@,
                old(self).texts.field_label@,
                "Omarchygram could not start."@,
                old(self).texts.placeholder@,
            ),
            final(self).parts == (AuthParts {
                progress: false,
                field_label: false,
                link: false,
                entry: false,
                credentials: false,
                error: true,
                button: true,
            }),
            final(self).error@ == message@,
            final(self).button_retries,
            final(self).button_sensitive,
            !final(self).busy,
            final(self).retry_start,
            *final(self) == (AuthView {
                texts: final(self).texts,
                parts: final(self).parts,
                error: final(self).error,
                button_retries: true,
                button_sensitive: true,
                busy: false,
                retry_start: true,
                ..*old(self)
            }),
    {
        self.texts.title = "Connection failed".to_owned();
        self.texts.hint = "Omarchygram could not start.".to_owned();
        self.parts = AuthParts {
            progress: false,
            field_label: false,
            link: false,
            entry: false,
            credentials: false,
            error: true,
            button: true,
        };
        self.error = message.to_owned();
        self.button_retries = true;
        self.button_sensitive = true;
        self.busy = false;
        self.retry_start = true;
    }

    /// What was sent was turned down. A password that was turned down is forgotten;
    /// the application's values are kept.
    pub fn finish_error(&mut self, message: &str)
        requires
            old(self).well_formed(),
        ensures
            final(self).well_formed(),
            !final(self).busy,
            old(self).parts.credentials ==> {
                &&& final(self).creds.error@ == message@
                &&& final(self).creds == (CredentialsForm {
                    error: final(self).creds.error,
                    error_visible: true,
                    busy: false,
                    fields_sensitive: true,
                    submit_sensitive: old(self).creds.complete(),
                    ..old(self).creds
                })
                &&& *final(self) == (AuthView {
                    busy: false,
                    creds: final(self).creds,
                    ..*old(self)
                })
            },
            !old(self).parts.credentials ==> {
                &&& final(self).error@ == message@
                &&& final(self).entry_text@ == (if old(self).state is NeedPassword {
                    Seq::empty()
                } else {
                    old(self).entry_text@
                })
                &&& *final(self) == (AuthView {
                    busy: false,
                    error: final(self).error,
                    parts: AuthParts { error: true, ..old(self).parts },
                    entry_sensitive: true,
                    button_sensitive: true,
                    entry_text: final(self).entry_text,
                    ..*old(self)
                })
            },
    {
        self.busy = false;
        if self.parts.credentials {
            self.creds.show_error(message);
            return;
        }
        let parts = self.parts;
        self.error = message.to_owned();
        self.parts = AuthParts { error: true, ..parts };
        self.entry_sensitive = true;
        self.button_sensitive = true;
        if matches!(self.state, AuthState::NeedPassword) {
            self.entry_text = String::new();
        }
    }

    /// Fills the field in and sends it.
    pub fn probe_submit(&mut self, value: &str) -> (action: Option<AuthAction>)
        ensures
            final(self).entry_text@ == value@,
            action is Some <==> !old(self).busy && (old(self).retry_start || has_field(
                old(self).state,
            )),
            action is Some && !old(self).retry_start ==> match (old(self).state, action->0) {
                (AuthState::NeedPhone, AuthAction::SubmitPhone(sent)) => sent@ == value@,
                (AuthState::NeedCode, AuthAction::SubmitCode(sent)) => sent@ == value@,
                (AuthState::NeedPassword, AuthAction::SubmitPassword(sent)) => sent@ == value@,
                _ => false,
            },
            action is Some && old(self).retry_start ==> action->0 is RetryStart,
            *final(self) == (if old(self).busy {
                AuthView { entry_text: final(self).entry_text, ..*old(self) }
            } else if action is None {
                AuthView {
                    entry_text: final(self).entry_text,
                    retry_start: false,
                    ..*old(self)
                }
            } else {
                AuthView {
                    entry_text: final(self).entry_text,
                    busy: true,
                    retry_start: false,
                    entry_sensitive: false,
                    button_sensitive: false,
                    ..*old(self)
                }
            }),
    {
        self.set_entry(value);
        self.submit()
    }

    pub fn state(&self) -> (state: AuthState)
        ensures
            state == self.state,
    {
        self.state
    }
}

/// An incomplete form cannot be sent, nor one that is being sent already: a form that
/// was sent can be sent again only after it was answered.
pub proof fn law_forms_are_sent_once(form: CredentialsForm)
    requires
        form.well_formed(),
        form.busy || !form.complete(),
    ensures
        !form.submit_sensitive,
{
}

} // verus!
