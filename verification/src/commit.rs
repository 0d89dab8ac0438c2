//! Storing credentials step by step: the record goes to the keychain, is read
//! back, and only then is the password taken out of the settings.

use crate::config::{
    check_read_back, keyring_account, parse_stored_credentials, password_for, read_back_error,
    read_view, stored_in, stored_key, Config, ConfigView, PasswordSource, PendingStoredCredentials,
    StoredCredentials, StoredView, KEYRING_SCHEMA_VERSION, LOCAL_MASTER_KEY_LEN,
};
use vstd::prelude::*;

verus! {

/// Where storing credentials stands.
pub enum CommitStage {
    /// The record is to be written to the keychain.
    Storing,
    /// The record is to be read back.
    ReadingBack,
    /// The settings are to be written without the password.
    Rewriting,
    /// Done: the settings from now on and what is said of them, or an error.
    Finished(Result<(Config, String), String>),
}

/// Where storing credentials stands, as mathematics.
pub enum CommitStageView {
    Storing,
    ReadingBack,
    Rewriting,
    Finished(Result<(ConfigView, Seq<char>), Seq<char>>),
}

/// Credentials that are being stored.
pub struct CommitFlow {
    pub config: Config,
    pub record: StoredCredentials,
    pub clear_plaintext_password: bool,
    pub stage: CommitStage,
}

/// Credentials that are being stored, as mathematics.
pub struct CommitView {
    pub config: ConfigView,
    pub record: StoredView,
    pub clear_plaintext_password: bool,
    pub stage: CommitStageView,
}

/// The view of an outcome.
pub open spec fn outcome_view(outcome: Result<(Config, String), String>) -> Result<
    (ConfigView, Seq<char>),
    Seq<char>,
> {
    match outcome {
        Ok(pair) => Ok((pair.0@, pair.1@)),
        Err(message) => Err(message@),
    }
}

impl View for CommitFlow {
    type V = CommitView;

    open spec fn view(&self) -> CommitView {
        CommitView {
            config: self.config@,
            record: self.record@,
            clear_plaintext_password: self.clear_plaintext_password,
            stage: match self.stage {
                CommitStage::Storing => CommitStageView::Storing,
                CommitStage::ReadingBack => CommitStageView::ReadingBack,
                CommitStage::Rewriting => CommitStageView::Rewriting,
                CommitStage::Finished(outcome) => CommitStageView::Finished(outcome_view(outcome)),
            },
        }
    }
}

/// What storing credentials does next.
pub enum CommitAction {
    /// Write a text to the keychain under an account.
    Store { account: String, text: String },
    /// Read the text of an account of the keychain.
    ReadBack { account: String },
    /// Write these settings to their file.
    Rewrite(Config),
    /// Nothing: it is done.
    Finish,
}

/// The account of the keychain that belongs to settings.
pub open spec fn account_of(config: ConfigView) -> Seq<char> {
    config.subdomain + "/"@ + config.username
}

/// Settings without a password.
pub open spec fn without_password(config: ConfigView) -> ConfigView {
    ConfigView { password: None, ..config }
}

/// The settings once the record is stored: without the password where that was
/// moved.
pub open spec fn settings_after(flow: CommitView) -> ConfigView {
    if flow.clear_plaintext_password {
        without_password(flow.config)
    } else {
        flow.config
    }
}

/// What is said once the record is stored.
pub open spec fn words_after(flow: CommitView) -> Seq<char> {
    if flow.clear_plaintext_password {
        "Password migrated to OS keychain and removed from config file."@
    } else {
        "Credentials stored in OS keychain."@
    }
}

/// Whether an action is what storing credentials does next.
pub open spec fn is_next(flow: CommitView, action: CommitAction) -> bool {
    match flow.stage {
        CommitStageView::Storing => action matches CommitAction::Store { account, text }
            && account@ == account_of(flow.config) && stored_in(text@) == Ok::<
            StoredView,
            Seq<char>,
        >(flow.record),
        CommitStageView::ReadingBack => action matches CommitAction::ReadBack { account }
            && account@ == account_of(flow.config),
        CommitStageView::Rewriting => action matches CommitAction::Rewrite(config) && config@
            == without_password(flow.config),
        CommitStageView::Finished(_) => action is Finish,
    }
}

/// The flow at another stage.
pub open spec fn at_stage(flow: CommitView, stage: CommitStageView) -> CommitView {
    CommitView { stage, ..flow }
}

/// The flow once all is done.
pub open spec fn done(flow: CommitView) -> CommitView {
    at_stage(flow, CommitStageView::Finished(Ok((settings_after(flow), words_after(flow)))))
}

/// The flow after the record was written to the keychain, or was not.
pub open spec fn after_store(flow: CommitView, reply: Result<(), Seq<char>>) -> CommitView {
    match reply {
        Ok(_) => at_stage(flow, CommitStageView::ReadingBack),
        Err(message) => at_stage(flow, CommitStageView::Finished(Err(message))),
    }
}

/// The record in what the keychain gave.
pub open spec fn read_record(read: Result<Option<Seq<char>>, Seq<char>>) -> Result<
    Option<StoredView>,
    Seq<char>,
> {
    match read {
        Ok(Some(raw)) => match stored_in(raw) {
            Ok(stored) => Ok(Some(stored)),
            Err(message) => Err(message),
        },
        Ok(None) => Ok(None),
        Err(message) => Err(message),
    }
}

/// The flow after the keychain was read: the settings are written only where
/// it gave the record that was stored.
pub open spec fn after_read_back(
    flow: CommitView,
    read: Result<Option<Seq<char>>, Seq<char>>,
) -> CommitView {
    match read_back_error(flow.record, read_record(read)) {
        Some(message) => at_stage(flow, CommitStageView::Finished(Err(message))),
        None => if flow.clear_plaintext_password {
            at_stage(flow, CommitStageView::Rewriting)
        } else {
            done(flow)
        },
    }
}

/// The flow after the settings were written, or were not.
pub open spec fn after_rewrite(flow: CommitView, reply: Result<(), Seq<char>>) -> CommitView {
    match reply {
        Ok(_) => done(flow),
        Err(_) => at_stage(
            flow,
            CommitStageView::Finished(Err("rewrite config without password"@)),
        ),
    }
}

/// The view of an answer that holds nothing.
pub open spec fn unit_view(reply: Result<(), String>) -> Result<(), Seq<char>> {
    match reply {
        Ok(unit) => Ok(unit),
        Err(message) => Err(message@),
    }
}

/// The view of what the keychain gave.
pub open spec fn raw_view(read: Result<Option<String>, String>) -> Result<
    Option<Seq<char>>,
    Seq<char>,
> {
    match read {
        Ok(Some(raw)) => Ok(Some(raw@)),
        Ok(None) => Ok(None),
        Err(message) => Err(message@),
    }
}

// ---------------------------------------------------------------------------
// Laws
// ---------------------------------------------------------------------------

/// Where credentials stand after a whole run, given how the keychain and the
/// file answer.
pub open spec fn after_run(
    flow: CommitView,
    stored: Result<(), Seq<char>>,
    read: Result<Option<Seq<char>>, Seq<char>>,
    rewritten: Result<(), Seq<char>>,
) -> CommitView {
    let first = after_store(flow, stored);
    if first.stage is ReadingBack {
        let second = after_read_back(first, read);
        if second.stage is Rewriting {
            after_rewrite(second, rewritten)
        } else {
            second
        }
    } else {
        first
    }
}

/// The settings that a whole run hands to their file, where it does.
pub open spec fn file_written(
    flow: CommitView,
    stored: Result<(), Seq<char>>,
    read: Result<Option<Seq<char>>, Seq<char>>,
) -> Option<ConfigView> {
    let first = after_store(flow, stored);
    if first.stage is ReadingBack && after_read_back(first, read).stage is Rewriting {
        Some(without_password(flow.config))
    } else {
        None
    }
}

/// The settings are written only to move a password, only without it, and only
/// once the keychain has given back the record that was stored.
pub proof fn settings_are_rewritten_only_after_read_back(
    flow: CommitView,
    stored: Result<(), Seq<char>>,
    read: Result<Option<Seq<char>>, Seq<char>>,
    rewritten: Result<(), Seq<char>>,
)
    requires
        flow.stage is Storing,
    ensures
        after_run(flow, stored, read, rewritten).stage is Finished,
        file_written(flow, stored, read) is Some <==> flow.clear_plaintext_password && stored is Ok
            && read_record(read) == Ok::<Option<StoredView>, Seq<char>>(Some(flow.record)),
        file_written(flow, stored, read) matches Some(config) ==> config == without_password(
            flow.config,
        ),
{
}

/// Where the keychain does not store the record or does not give it back, the
/// run fails and the file is left as it was.
pub proof fn a_failed_store_leaves_the_file_alone(
    flow: CommitView,
    stored: Result<(), Seq<char>>,
    read: Result<Option<Seq<char>>, Seq<char>>,
    rewritten: Result<(), Seq<char>>,
)
    requires
        flow.stage is Storing,
        stored is Err || read_record(read) != Ok::<Option<StoredView>, Seq<char>>(
            Some(flow.record),
        ),
    ensures
        after_run(flow, stored, read, rewritten).stage matches CommitStageView::Finished(Err(_)),
        file_written(flow, stored, read) is None,
        stored matches Err(message) ==> after_run(flow, stored, read, rewritten).stage
            == CommitStageView::Finished(Err(message)),
{
}

/// A password that is moved is found in the keychain afterwards: where the run
/// succeeds, the settings have no password, are else as they were and are in
/// their file, and the password comes from what the keychain gave back.
pub proof fn a_moved_password_is_found_again(
    flow: CommitView,
    password: Seq<char>,
    stored: Result<(), Seq<char>>,
    read: Result<Option<Seq<char>>, Seq<char>>,
    rewritten: Result<(), Seq<char>>,
    config: ConfigView,
    words: Seq<char>,
)
    requires
        flow.stage is Storing,
        flow.clear_plaintext_password,
        flow.config.password == Some(password),
        flow.record.password == password,
        after_run(flow, stored, read, rewritten).stage == CommitStageView::Finished(
            Ok((config, words)),
        ),
    ensures
        config == without_password(flow.config),
        file_written(flow, stored, read) == Some(config),
        rewritten is Ok,
        password_for(config, None, read_record(read)) == Ok::<
            (Seq<char>, PasswordSource),
            Seq<char>,
        >((password, PasswordSource::Keychain)),
{
}

// ---------------------------------------------------------------------------
// The flow
// ---------------------------------------------------------------------------

impl PendingStoredCredentials {
    /// Begins to store credentials.
    pub fn commit(&self) -> (flow: CommitFlow)
        requires
            self.local_master_key@.len() == LOCAL_MASTER_KEY_LEN,
        ensures
            flow@.config == self.config@,
            flow@.clear_plaintext_password == self.clear_plaintext_password,
            flow@.stage is Storing,
            flow@.record.v == KEYRING_SCHEMA_VERSION,
            flow@.record.password == self.password@,
            stored_key(flow@.record) == Ok::<Seq<u8>, Seq<char>>(self.local_master_key@),
    {
        CommitFlow {
            config: self.config.copy(),
            record: self.record(),
            clear_plaintext_password: self.clear_plaintext_password,
            stage: CommitStage::Storing,
        }
    }
}

impl CommitFlow {
    /// What is to be done next.
    pub fn next_action(&self) -> (action: CommitAction)
        requires
            self@.record.v == KEYRING_SCHEMA_VERSION,
        ensures
            is_next(self@, action),
    {
        match &self.stage {
            CommitStage::Storing => CommitAction::Store {
                account: keyring_account(
                    self.config.subdomain.as_str(),
                    self.config.username.as_str(),
                ),
                text: self.record.record_text(),
            },
            CommitStage::ReadingBack => CommitAction::ReadBack {
                account: keyring_account(
                    self.config.subdomain.as_str(),
                    self.config.username.as_str(),
                ),
            },
            CommitStage::Rewriting => {
                let mut config = self.config.copy();
                config.password = None;
                CommitAction::Rewrite(config)
            },
            CommitStage::Finished(_) => CommitAction::Finish,
        }
    }

    fn finish(self) -> (flow: CommitFlow)
        ensures
            flow@ == done(self@),
    {
        let mut config = self.config.copy();
        let words = if self.clear_plaintext_password {
            config.password = None;
            "Password migrated to OS keychain and removed from config file.".to_owned()
        } else {
            "Credentials stored in OS keychain.".to_owned()
        };
        CommitFlow { stage: CommitStage::Finished(Ok((config, words))), ..self }
    }

    /// Takes in whether the record was written to the keychain.
    pub fn stored(self, reply: Result<(), String>) -> (flow: CommitFlow)
        requires
            self@.stage is Storing,
        ensures
            flow@ == after_store(self@, unit_view(reply)),
    {
        match reply {
            Ok(_) => CommitFlow { stage: CommitStage::ReadingBack, ..self },
            Err(message) => CommitFlow { stage: CommitStage::Finished(Err(message)), ..self },
        }
    }

    /// Takes in what the keychain gave.
    pub fn read_back(self, read: Result<Option<String>, String>) -> (flow: CommitFlow)
        requires
            self@.stage is ReadingBack,
        ensures
            flow@ == after_read_back(self@, raw_view(read)),
    {
        let record: Result<Option<StoredCredentials>, String> = match &read {
            Ok(Some(raw)) => match parse_stored_credentials(raw.as_str()) {
                Ok(stored) => Ok(Some(stored)),
                Err(message) => Err(message),
            },
            Ok(None) => Ok(None),
            Err(message) => Err(message.clone()),
        };
        assert(read_view(record) == read_record(raw_view(read)));
        match check_read_back(&self.record, &record) {
            Some(message) => CommitFlow { stage: CommitStage::Finished(Err(message)), ..self },
            None => {
                if self.clear_plaintext_password {
                    CommitFlow { stage: CommitStage::Rewriting, ..self }
                } else {
                    self.finish()
                }
            },
        }
    }

    /// Takes in whether the settings were written.
    pub fn rewritten(self, reply: Result<(), String>) -> (flow: CommitFlow)
        requires
            self@.stage is Rewriting,
        ensures
            flow@ == after_rewrite(self@, unit_view(reply)),
    {
        match reply {
            Ok(_) => self.finish(),
            Err(_) => CommitFlow {
                stage: CommitStage::Finished(Err("rewrite config without password".to_owned())),
                ..self
            },
        }
    }
}

} // verus!
