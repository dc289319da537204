//! How nearby management inspects, reads, writes and never removes the
//! configuration of an instance.

use crate::config_store::{
    config_id, config_id_from_management_path, config_path_of, error_view, is_config_of,
    lemma_managed_paths_are_canonical, management_config_path, path_view, root_view, ConfigError,
};
use crate::instance_id::{hyphenated, uuid_text, InstanceId};
use crate::paths::{components, owned, same_path};
use crate::text::{utf8_error_text, utf8_text};
use vstd::prelude::*;
use vstd::utf8::{
    decode_utf8, decode_utf8_encode_utf8, encode_utf8, encode_utf8_decode_utf8, valid_utf8,
};

verus! {

/// What may be done to the configuration of an instance.
pub struct ConfigFileControl {
    /// Where the configuration is kept, if anywhere.
    pub path: Option<Vec<u8>>,
    pub read_only: bool,
    pub no_delete: bool,
}

/// A configuration that may be written once its text has been understood.
pub struct PendingWrite {
    pub config_id: InstanceId,
    pub text: String,
}

/// The record of an instance: the key that it is kept under and its name.
pub struct ConfigRecord {
    pub key: String,
    pub display_name: String,
}

/// The name shown for an instance: the stored one, else the one of the running
/// configuration, else the name that the configuration gives itself.
pub open spec fn display_name_of(
    stored: Option<Seq<char>>,
    running: Option<Seq<char>>,
    instance_name: Seq<char>,
) -> Seq<char> {
    match stored {
        Some(name) => name,
        None => match running {
            Some(name) => name,
            None => instance_name,
        },
    }
}

pub open spec fn text_view(text: Option<String>) -> Option<Seq<char>> {
    match text {
        Some(text) => Some(text@),
        None => None,
    }
}

/// A control that opens the file at `expected` to writing and closes it to
/// deletion.
pub open spec fn owns_path(control: ConfigFileControl, expected: Seq<u8>) -> bool {
    &&& control.path is Some
    &&& components(control.path->0@) == components(expected)
    &&& !control.read_only
    &&& control.no_delete
}

pub fn display_name(
    stored: Option<String>,
    running: Option<String>,
    instance_name: String,
) -> (name: String)
    ensures
        name@ == display_name_of(text_view(stored), text_view(running), instance_name@),
        stored is Some ==> name@ == stored->0@,
        stored is None && running is Some ==> name@ == running->0@,
        stored is None && running is None ==> name@ == instance_name@,
{
    match stored {
        Some(name) => name,
        None => match running {
            Some(name) => name,
            None => instance_name,
        },
    }
}

/// The control that a running instance is given: its managed path, open to
/// writing and closed to deletion.
pub fn runtime_management_config_control(
    instance_id: InstanceId,
    root: Option<&[u8]>,
) -> (control: Option<ConfigFileControl>)
    ensures
        control is Some <==> root is Some,
        control matches Some(control) ==> control.path is Some && control.path->0@
            == config_path_of(root->0@, instance_id),
        control matches Some(control) ==> path_view(control.path) == Some(
            config_path_of(root_view(root)->0, instance_id),
        ) && !control.read_only && control.no_delete,
{
    match management_config_path(instance_id, root) {
        Some(path) => Some(
            ConfigFileControl { path: Some(path), read_only: false, no_delete: true },
        ),
        None => None,
    }
}

impl ConfigFileControl {
    /// Whether this is the control of the file at `expected`, open to writing and
    /// closed to deletion.
    pub fn controls(&self, expected: &[u8]) -> (r: bool)
        ensures
            r == owns_path(*self, expected@),
            r <==> self.path is Some && components(self.path->0@) == components(expected@)
                && !self.read_only && self.no_delete,
    {
        let same = match &self.path {
            Some(path) => same_path(path.as_slice(), expected),
            None => false,
        };
        same && !self.read_only && self.no_delete
    }
}

/// Whether `control` is what may be done to the file at a path.
pub open spec fn is_inspection(
    path: Seq<u8>,
    root: Option<Seq<u8>>,
    control: ConfigFileControl,
) -> bool {
    &&& path_view(control.path) == Some(path)
    &&& control.read_only <==> config_id(path, root) is Err
    &&& control.no_delete
}

/// Whether `pending` is what a write of `contents` at a path comes to.
pub open spec fn is_write(
    path: Seq<u8>,
    contents: Seq<u8>,
    root: Option<Seq<u8>>,
    pending: Result<PendingWrite, ConfigError<String>>,
) -> bool {
    match config_id(path, root) {
        Ok(id) => if valid_utf8(contents) {
            pending is Ok && pending->Ok_0.config_id == id && pending->Ok_0.text@ == decode_utf8(
                contents,
            )
        } else {
            pending is Err && error_view(pending->Err_0) == ConfigError::NotUtf8(
                utf8_error_text(contents),
            )
        },
        Err(error) => pending is Err && error_view(pending->Err_0) == error,
    }
}

/// Whether `record` is what a pending write comes to, once its text has been read as the
/// configuration of the instance `parsed_id`.
pub open spec fn is_record(
    pending: PendingWrite,
    parsed_id: InstanceId,
    stored_name: Option<String>,
    running_name: Option<String>,
    instance_name: String,
    record: Result<ConfigRecord, ConfigError<String>>,
) -> bool {
    match record {
        Ok(record) => {
            &&& parsed_id == pending.config_id
            &&& record.key@ == hyphenated(parsed_id)
            &&& record.display_name@ == display_name_of(
                text_view(stored_name),
                text_view(running_name),
                instance_name@,
            )
        },
        Err(error) => parsed_id != pending.config_id && error is InstanceIdChanged,
    }
}

/// The configuration files of the managed instances.
pub struct NearbyConfigStorage;

impl NearbyConfigStorage {
    /// What may be done to the file at `path`: a managed configuration may be
    /// written, nothing else may, and nothing may be deleted.
    pub fn inspect(path: &[u8], root: Option<&[u8]>) -> (control: ConfigFileControl)
        ensures
            is_inspection(path@, root_view(root), control),
            path_view(control.path) == Some(path@),
            control.path is Some && control.path->0@ == path@,
            !control.read_only ==> root is Some && exists|id: InstanceId| #[trigger]
                is_config_of(path@, Some(root->0@), id),
            control.read_only <==> config_id(path@, root_view(root)) is Err,
            control.no_delete,
            forall|id: InstanceId| #[trigger]
                is_config_of(path@, root_view(root), id) ==> !control.read_only,
    {
        let read_only = match config_id_from_management_path(path, root) {
            Ok(id) => {
                proof {
                    lemma_managed_paths_are_canonical(path@, root_view(root), id);
                }
                false
            },
            Err(_) => true,
        };
        ConfigFileControl { path: Some(owned(path)), read_only, no_delete: true }
    }

    /// The key under which the configuration at `path` is kept.
    pub fn read(path: &[u8], root: Option<&[u8]>) -> (key: Result<String, ConfigError<String>>)
        ensures
            match config_id(path@, root_view(root)) {
                Ok(id) => key is Ok && key->Ok_0@ == hyphenated(id),
                Err(error) => key is Err && error_view(key->Err_0) == error,
            },
            forall|id: InstanceId| #[trigger]
                is_config_of(path@, root_view(root), id) ==> key is Ok && key->Ok_0@ == hyphenated(
                    id,
                ),
    {
        match config_id_from_management_path(path, root) {
            Ok(id) => Ok(uuid_text(id)),
            Err(error) => Err(error),
        }
    }

    /// The text to be written at `path`, for the instance that the path names.
    pub fn write(path: &[u8], contents: &[u8], root: Option<&[u8]>) -> (pending: Result<
        PendingWrite,
        ConfigError<String>,
    >)
        ensures
            is_write(path@, contents@, root_view(root), pending),
            match config_id(path@, root_view(root)) {
                Ok(id) => if valid_utf8(contents@) {
                    pending is Ok && pending->Ok_0.config_id == id && pending->Ok_0.text@
                        == decode_utf8(contents@)
                } else {
                    pending is Err && error_view(pending->Err_0) == ConfigError::NotUtf8(
                        utf8_error_text(contents@),
                    )
                },
                Err(error) => pending is Err && error_view(pending->Err_0) == error,
            },
            forall|id: InstanceId| #[trigger]
                is_config_of(path@, root_view(root), id) && valid_utf8(contents@) ==> pending is Ok
                    && pending->Ok_0.config_id == id,
    {
        let config_id = match config_id_from_management_path(path, root) {
            Ok(id) => id,
            Err(error) => return Err(error),
        };
        match utf8_text(contents) {
            Ok(text) => {
                proof {
                    encode_utf8_decode_utf8(text@);
                }
                Ok(PendingWrite { config_id, text: text.to_owned() })
            },
            Err(error) => Err(ConfigError::NotUtf8(error)),
        }
    }

    /// The record to save, once the pending text has been read as the
    /// configuration of the instance `parsed_id`.
    pub fn write_parsed(
        pending: &PendingWrite,
        parsed_id: InstanceId,
        stored_name: Option<String>,
        running_name: Option<String>,
        instance_name: String,
    ) -> (record: Result<ConfigRecord, ConfigError<String>>)
        ensures
            is_record(
                *pending,
                parsed_id,
                stored_name,
                running_name,
                instance_name,
                record,
            ),
            record is Ok <==> parsed_id == pending.config_id,
            record matches Ok(record) ==> record.key@ == hyphenated(pending.config_id)
                && record.display_name@ == display_name_of(
                text_view(stored_name),
                text_view(running_name),
                instance_name@,
            ),
            record matches Err(error) ==> error is InstanceIdChanged,
            record matches Ok(record) ==> {
                &&& stored_name is Some ==> record.display_name@ == stored_name->0@
                &&& stored_name is None && running_name is Some ==> record.display_name@
                    == running_name->0@
                &&& stored_name is None && running_name is None ==> record.display_name@
                    == instance_name@
            },
    {
        if parsed_id != pending.config_id {
            return Err(ConfigError::InstanceIdChanged);
        }
        Ok(
            ConfigRecord {
                key: uuid_text(pending.config_id),
                display_name: display_name(stored_name, running_name, instance_name),
            },
        )
    }

    /// How a write ends, once it is known whether the record was saved.
    pub fn write_saved(saved: bool) -> (ended: Result<(), ConfigError<String>>)
        ensures
            ended is Ok <==> saved,
            ended matches Err(error) ==> error is NotPersisted,
    {
        if saved {
            Ok(())
        } else {
            Err(ConfigError::NotPersisted)
        }
    }

    /// Refuses to remove a configuration, whichever it is.
    pub fn remove(path: &[u8]) -> (ended: Result<(), ConfigError<String>>)
        ensures
            ended is Err,
            ended->Err_0 is RemovalRefused,
    {
        Err(ConfigError::RemovalRefused)
    }
}

/// The name shown for an instance is the stored one, whatever else there is; without
/// one, that of the running configuration; and without either, the configuration's own.
pub proof fn lemma_display_names(
    stored: Option<Seq<char>>,
    running: Option<Seq<char>>,
    instance_name: Seq<char>,
    other_running: Option<Seq<char>>,
    other_name: Seq<char>,
)
    ensures
        stored is Some ==> display_name_of(stored, running, instance_name) == stored->0
            && display_name_of(stored, other_running, other_name) == stored->0,
        running is Some ==> display_name_of(None, running, instance_name) == running->0
            && display_name_of(None, running, other_name) == running->0,
        display_name_of(None, None, instance_name) == instance_name,
{
}

/// A control owns a file exactly where it stands at the file's path, open to writing and
/// closed to deletion.
pub proof fn lemma_owned_paths(control: ConfigFileControl, expected: Seq<u8>)
    ensures
        owns_path(control, expected) <==> control.path is Some && components(control.path->0@)
            == components(expected) && !control.read_only && control.no_delete,
{
}

/// A text written at the path of an instance is kept whole for that instance, and saved
/// under its key if and only if it configures that same instance.
pub proof fn lemma_writes_keep_the_instance(
    path: Seq<u8>,
    contents: Seq<u8>,
    root: Option<Seq<u8>>,
    id: InstanceId,
    pending: Result<PendingWrite, ConfigError<String>>,
    parsed_id: InstanceId,
    stored_name: Option<String>,
    running_name: Option<String>,
    instance_name: String,
    record: Result<ConfigRecord, ConfigError<String>>,
)
    requires
        config_id(path, root) == Ok::<InstanceId, ConfigError<Seq<char>>>(id),
        valid_utf8(contents),
        is_write(path, contents, root, pending),
        pending is Ok ==> is_record(
            pending->Ok_0,
            parsed_id,
            stored_name,
            running_name,
            instance_name,
            record,
        ),
    ensures
        pending is Ok,
        encode_utf8(pending->Ok_0.text@) == contents,
        record is Ok <==> parsed_id == id,
        record matches Ok(record) ==> record.key@ == hyphenated(id),
        record matches Err(error) ==> error is InstanceIdChanged,
        record is Ok && stored_name is Some ==> record->Ok_0.display_name@ == stored_name->0@,
        record is Ok && stored_name is None && running_name is Some
            ==> record->Ok_0.display_name@ == running_name->0@,
        record is Ok && stored_name is None && running_name is None
            ==> record->Ok_0.display_name@ == instance_name@,
{
    decode_utf8_encode_utf8(contents);
}

/// Nothing is written at a path that is no instance's, nor of what is no text.
pub proof fn lemma_bad_writes_are_refused(
    path: Seq<u8>,
    contents: Seq<u8>,
    root: Option<Seq<u8>>,
    pending: Result<PendingWrite, ConfigError<String>>,
)
    requires
        is_write(path, contents, root, pending),
    ensures
        pending is Ok <==> config_id(path, root) is Ok && valid_utf8(contents),
        pending is Err && config_id(path, root) is Ok ==> pending->Err_0 is NotUtf8,
        pending is Err && config_id(path, root) is Err ==> error_view(pending->Err_0) == config_id(
            path,
            root,
        )->Err_0,
{
}

/// A file that is inspected and found to be an instance's own may be overwritten, with
/// the control that was found; any other may not; and none may be deleted.
pub proof fn lemma_inspected_files(
    path: Seq<u8>,
    root: Option<Seq<u8>>,
    id: InstanceId,
    control: ConfigFileControl,
)
    requires
        is_inspection(path, root, control),
    ensures
        config_id(path, root) == Ok::<InstanceId, ConfigError<Seq<char>>>(id) ==> root is Some
            && owns_path(control, config_path_of(root->0, id)),
        config_id(path, root) is Err ==> control.read_only,
        control.no_delete,
        control.path is Some,
        control.path->0@ == path,
{
    if config_id(path, root) == Ok::<InstanceId, ConfigError<Seq<char>>>(id) {
        lemma_managed_paths_are_canonical(path, root, id);
    }
}

} // verus!
