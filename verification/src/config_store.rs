//! The configuration files that nearby management may touch: one per instance,
//! in a directory of their own below the configuration root.

use crate::instance_id::{
    hyphenated, lemma_hyphenated_characters, lemma_hyphenated_distinct, parse_uuid, parsed_uuid,
    uuid_text, InstanceId,
};
use crate::paths::{
    components, file_stem, is_plain_name, join, joined, last_dot, lemma_joined_components,
    path_file_stem, same_path, stem, DOT, SEPARATOR,
};
use crate::text::utf8_text;
use vstd::prelude::*;
use vstd::utf8::{
    decode_utf8, encode_utf8, encode_utf8_decode_utf8, encode_utf8_valid_utf8, is_ascii_chars,
    is_ascii_chars_encode_utf8, valid_utf8,
};

verus! {

/// The socket of the management server, below the configuration root.
pub const MANAGEMENT_SOCKET_FILE_NAME: &'static str = "easytier-nearby-management.sock";

/// The directory of the managed configurations, below the configuration root.
pub const MANAGEMENT_CONFIG_DIR_NAME: &'static str = ".easytier-nearby-management";

/// The extension of a managed configuration.
pub const CONFIG_EXTENSION: &'static str = ".toml";

/// Why a configuration file is not read, written or removed. `Text` is what
/// holds the words of an error found further down.
pub enum ConfigError<Text> {
    /// The path has no file name that could name an instance.
    InvalidPath,
    /// The file name is no UUID.
    InvalidInstanceId(Text),
    /// There is no configuration root yet.
    StoreNotInitialized,
    /// The path is not that of the instance that it names.
    OutsideStore,
    /// The contents are no text.
    NotUtf8(Text),
    /// The contents configure another instance.
    InstanceIdChanged,
    /// The record could not be saved.
    NotPersisted,
    /// Nothing is ever removed.
    RemovalRefused,
}

/// An error with its words as characters.
pub open spec fn error_view(error: ConfigError<String>) -> ConfigError<Seq<char>> {
    match error {
        ConfigError::InvalidPath => ConfigError::InvalidPath,
        ConfigError::InvalidInstanceId(text) => ConfigError::InvalidInstanceId(text@),
        ConfigError::StoreNotInitialized => ConfigError::StoreNotInitialized,
        ConfigError::OutsideStore => ConfigError::OutsideStore,
        ConfigError::NotUtf8(text) => ConfigError::NotUtf8(text@),
        ConfigError::InstanceIdChanged => ConfigError::InstanceIdChanged,
        ConfigError::NotPersisted => ConfigError::NotPersisted,
        ConfigError::RemovalRefused => ConfigError::RemovalRefused,
    }
}

/// What an error tells the caller.
pub open spec fn error_message(error: ConfigError<Seq<char>>) -> Seq<char> {
    match error {
        ConfigError::InvalidPath => "nearby management config path is invalid"@,
        ConfigError::InvalidInstanceId(text) => text,
        ConfigError::StoreNotInitialized => "HarmonyOS config store is not initialized"@,
        ConfigError::OutsideStore => "nearby management config path is outside the managed store"@,
        ConfigError::NotUtf8(text) => text,
        ConfigError::InstanceIdChanged => "nearby management cannot change the running instance ID"@,
        ConfigError::NotPersisted => "failed to persist nearby management config"@,
        ConfigError::RemovalRefused => "nearby management never deletes a saved HarmonyOS config"@,
    }
}

impl ConfigError<String> {
    pub fn message(&self) -> (message: String)
        ensures
            message@ == error_message(error_view(*self)),
            self matches ConfigError::InvalidInstanceId(text) ==> message@ == text@,
            self matches ConfigError::NotUtf8(text) ==> message@ == text@,
    {
        match self {
            ConfigError::InvalidPath => "nearby management config path is invalid".to_owned(),
            ConfigError::InvalidInstanceId(text) => text.clone(),
            ConfigError::StoreNotInitialized => {
                "HarmonyOS config store is not initialized".to_owned()
            },
            ConfigError::OutsideStore => {
                "nearby management config path is outside the managed store".to_owned()
            },
            ConfigError::NotUtf8(text) => text.clone(),
            ConfigError::InstanceIdChanged => {
                "nearby management cannot change the running instance ID".to_owned()
            },
            ConfigError::NotPersisted => "failed to persist nearby management config".to_owned(),
            ConfigError::RemovalRefused => {
                "nearby management never deletes a saved HarmonyOS config".to_owned()
            },
        }
    }
}

pub open spec fn root_view(root: Option<&[u8]>) -> Option<Seq<u8>> {
    match root {
        Some(bytes) => Some(bytes@),
        None => None,
    }
}

pub open spec fn path_view(path: Option<Vec<u8>>) -> Option<Seq<u8>> {
    match path {
        Some(bytes) => Some(bytes@),
        None => None,
    }
}

/// Where the management server listens.
pub open spec fn socket_path_of(root: Seq<u8>) -> Seq<u8> {
    joined(root, encode_utf8(MANAGEMENT_SOCKET_FILE_NAME@))
}

/// The file that configures an instance: its hyphenated identifier and the
/// extension.
pub open spec fn config_file_name(id: InstanceId) -> Seq<u8> {
    encode_utf8(hyphenated(id) + CONFIG_EXTENSION@)
}

/// Where the configuration of an instance is kept.
pub open spec fn config_path_of(root: Seq<u8>, id: InstanceId) -> Seq<u8> {
    joined(joined(root, encode_utf8(MANAGEMENT_CONFIG_DIR_NAME@)), config_file_name(id))
}

/// Whether a path is the one where the configuration of `id` is kept.
pub open spec fn is_config_of(path: Seq<u8>, root: Option<Seq<u8>>, id: InstanceId) -> bool {
    root is Some && components(path) == components(config_path_of(root->0, id))
}

/// The instance that a path configures: the one that its file name spells,
/// where the path is the one kept for that instance.
pub open spec fn config_id(path: Seq<u8>, root: Option<Seq<u8>>) -> Result<
    InstanceId,
    ConfigError<Seq<char>>,
> {
    match file_stem(path) {
        None => Err(ConfigError::InvalidPath),
        Some(name) => if !valid_utf8(name) {
            Err(ConfigError::InvalidPath)
        } else {
            confirmed_id(path, root, parsed_uuid(decode_utf8(name)))
        },
    }
}

/// The instance that a path configures, where its file name has been read as
/// `parsed`.
pub open spec fn confirmed_id(
    path: Seq<u8>,
    root: Option<Seq<u8>>,
    parsed: Result<InstanceId, Seq<char>>,
) -> Result<InstanceId, ConfigError<Seq<char>>> {
    match parsed {
        Err(text) => Err(ConfigError::InvalidInstanceId(text)),
        Ok(id) => match root {
            None => Err(ConfigError::StoreNotInitialized),
            Some(dir) => if components(config_path_of(dir, id)) == components(path) {
                Ok(id)
            } else {
                Err(ConfigError::OutsideStore)
            },
        },
    }
}

/// Whether an outcome is the given one, words and all.
pub open spec fn is_outcome(
    found: Result<InstanceId, ConfigError<String>>,
    expected: Result<InstanceId, ConfigError<Seq<char>>>,
) -> bool {
    match found {
        Ok(id) => expected == Ok::<InstanceId, ConfigError<Seq<char>>>(id),
        Err(error) => expected == Err::<InstanceId, ConfigError<Seq<char>>>(error_view(error)),
    }
}

proof fn lemma_directory_name_is_plain()
    ensures
        is_plain_name(encode_utf8(MANAGEMENT_CONFIG_DIR_NAME@)),
        is_plain_name(encode_utf8(MANAGEMENT_SOCKET_FILE_NAME@)),
{
    reveal_strlit(".easytier-nearby-management");
    reveal_strlit("easytier-nearby-management.sock");
    let dir = MANAGEMENT_CONFIG_DIR_NAME@;
    let socket = MANAGEMENT_SOCKET_FILE_NAME@;
    assert(is_ascii_chars(dir));
    assert(is_ascii_chars(socket));
    is_ascii_chars_encode_utf8(dir);
    is_ascii_chars_encode_utf8(socket);
    assert(forall|i: int| 0 <= i < dir.len() ==> dir[i] != '/');
    assert(forall|i: int| 0 <= i < socket.len() ==> socket[i] != '/');
    assert forall|i: int| 0 <= i < dir.len() implies encode_utf8(dir)[i] != SEPARATOR by {
        assert(dir[i] != '/');
    }
    assert forall|i: int| 0 <= i < socket.len() implies encode_utf8(socket)[i] != SEPARATOR by {
        assert(socket[i] != '/');
    }
}

/// The file name of an instance's configuration is a plain name, and the
/// identifier is what stands before its extension.
proof fn lemma_config_file_name(id: InstanceId)
    ensures
        is_plain_name(config_file_name(id)),
        stem(config_file_name(id)) == encode_utf8(hyphenated(id)),
{
    lemma_hyphenated_characters(id);
    reveal_strlit(".toml");
    let spelled = hyphenated(id);
    let chars = spelled + CONFIG_EXTENSION@;
    let name = config_file_name(id);
    assert(is_ascii_chars(chars)) by {
        assert forall|i: int| 0 <= i < chars.len() implies '\0' <= #[trigger] chars[i]
            <= '\u{7f}' by {
            if i < 36 {
                assert(chars[i] == spelled[i]);
            }
        }
    }
    is_ascii_chars_encode_utf8(chars);
    is_ascii_chars_encode_utf8(spelled);
    assert forall|i: int| 0 <= i < name.len() implies name[i] != SEPARATOR by {
        if i < 36 {
            assert(chars[i] == spelled[i]);
        }
    }
    assert(chars[36] == '.');
    assert(name[36] == DOT);
    assert(chars[37] == 't' && chars[38] == 'o' && chars[39] == 'm' && chars[40] == 'l');
    assert(name[37] != DOT && name[38] != DOT && name[39] != DOT && name[40] != DOT);
    reveal_with_fuel(last_dot, 6);
    assert(last_dot(name) == 36);
    assert forall|i: int| 0 <= i < 36 implies name[i] == encode_utf8(spelled)[i] by {
        assert(chars[i] == spelled[i]);
    }
    assert(name.take(36) =~= encode_utf8(spelled));
}

/// The configuration of an instance stands directly in the managed directory.
pub proof fn lemma_config_path_components(root: Seq<u8>, id: InstanceId)
    ensures
        components(config_path_of(root, id)) == components(root).push(
            encode_utf8(MANAGEMENT_CONFIG_DIR_NAME@),
        ).push(config_file_name(id)),
{
    lemma_directory_name_is_plain();
    lemma_config_file_name(id);
    let dir = joined(root, encode_utf8(MANAGEMENT_CONFIG_DIR_NAME@));
    lemma_joined_components(root, encode_utf8(MANAGEMENT_CONFIG_DIR_NAME@));
    lemma_joined_components(dir, config_file_name(id));
}

/// The management socket stands directly in the configuration root.
pub proof fn lemma_socket_path_components(root: Seq<u8>)
    ensures
        components(socket_path_of(root)) == components(root).push(
            encode_utf8(MANAGEMENT_SOCKET_FILE_NAME@),
        ),
{
    lemma_directory_name_is_plain();
    lemma_joined_components(root, encode_utf8(MANAGEMENT_SOCKET_FILE_NAME@));
}

/// No two instances share a configuration path.
pub proof fn lemma_config_paths_distinct(root: Seq<u8>, a: InstanceId, b: InstanceId)
    requires
        components(config_path_of(root, a)) == components(config_path_of(root, b)),
    ensures
        a == b,
{
    lemma_config_path_components(root, a);
    lemma_config_path_components(root, b);
    assert(components(config_path_of(root, a)).last() == config_file_name(a));
    assert(components(config_path_of(root, b)).last() == config_file_name(b));
    lemma_config_file_name(a);
    lemma_config_file_name(b);
    encode_utf8_decode_utf8(hyphenated(a));
    encode_utf8_decode_utf8(hyphenated(b));
    lemma_hyphenated_distinct(a, b);
}

/// A path that is taken for an instance is, component by component, the
/// configuration path of that instance below the root, and of no other.
pub proof fn lemma_managed_paths_are_canonical(path: Seq<u8>, root: Option<Seq<u8>>, id: InstanceId)
    requires
        config_id(path, root) == Ok::<InstanceId, ConfigError<Seq<char>>>(id),
    ensures
        root is Some,
        components(path) == components(root->0).push(encode_utf8(MANAGEMENT_CONFIG_DIR_NAME@)).push(
            config_file_name(id),
        ),
        is_config_of(path, root, id),
        forall|other: InstanceId| #[trigger] is_config_of(path, root, other) ==> other == id,
{
    lemma_config_path_components(root->0, id);
    assert forall|other: InstanceId| #[trigger] is_config_of(path, root, other) implies other
        == id by {
        lemma_config_paths_distinct(root->0, other, id);
    }
}

/// Where the management server listens, once there is a configuration root.
pub fn management_socket_path(root: Option<&[u8]>) -> (path: Option<Vec<u8>>)
    ensures
        path_view(path) == (match root_view(root) {
            Some(dir) => Some(socket_path_of(dir)),
            None => None,
        }),
        path is Some <==> root is Some,
        path is Some ==> path->0@ == joined(
            root->0@,
            encode_utf8("easytier-nearby-management.sock"@),
        ),
{
    match root {
        Some(dir) => Some(join(dir, MANAGEMENT_SOCKET_FILE_NAME.as_bytes())),
        None => None,
    }
}

/// Where the configuration of an instance is kept, once there is a
/// configuration root.
pub fn management_config_path(instance_id: InstanceId, root: Option<&[u8]>) -> (path: Option<
    Vec<u8>,
>)
    ensures
        path_view(path) == (match root_view(root) {
            Some(dir) => Some(config_path_of(dir, instance_id)),
            None => None,
        }),
        path is Some <==> root is Some,
        path is Some ==> path->0@ == joined(
            joined(root->0@, encode_utf8(".easytier-nearby-management"@)),
            encode_utf8(hyphenated(instance_id) + ".toml"@),
        ),
{
    match root {
        Some(dir) => {
            let managed = join(dir, MANAGEMENT_CONFIG_DIR_NAME.as_bytes());
            let mut file = uuid_text(instance_id);
            file.append(CONFIG_EXTENSION);
            Some(join(managed.as_slice(), file.as_str().as_bytes()))
        },
        None => None,
    }
}

/// The instance whose configuration a path is. Each instance's own
/// configuration path is read as that instance.
pub fn config_id_from_management_path(path: &[u8], root: Option<&[u8]>) -> (found: Result<
    InstanceId,
    ConfigError<String>,
>)
    ensures
        is_outcome(found, config_id(path@, root_view(root))),
        forall|id: InstanceId| #[trigger]
            is_config_of(path@, root_view(root), id) ==> found is Ok && found->Ok_0 == id,
{
    proof {
        assert forall|id: InstanceId| #[trigger]
            is_config_of(path@, root_view(root), id) implies file_stem(path@) == Some(
            encode_utf8(hyphenated(id)),
        ) by {
            lemma_config_path_components(root_view(root)->0, id);
            lemma_config_file_name(id);
            assert(components(path@).last() == config_file_name(id));
        }
    }
    let name = match path_file_stem(path) {
        Some(name) => name,
        None => return Err(ConfigError::InvalidPath),
    };
    let file_stem_text = match utf8_text(name.as_slice()) {
        Ok(text) => text,
        Err(_) => {
            proof {
                assert forall|id: InstanceId| name@ != encode_utf8(#[trigger] hyphenated(id)) by {
                    encode_utf8_valid_utf8(hyphenated(id));
                }
            }
            return Err(ConfigError::InvalidPath);
        },
    };
    proof {
        encode_utf8_decode_utf8(file_stem_text@);
        assert forall|id: InstanceId|
            name@ == encode_utf8(#[trigger] hyphenated(id)) implies file_stem_text@ == hyphenated(
            id,
        ) by {
            encode_utf8_decode_utf8(hyphenated(id));
        }
    }
    confirm_config_id(path, root, parse_uuid(file_stem_text))
}

/// The instance whose configuration a path is, where its file name has been read
/// as `parsed`.
pub fn confirm_config_id(
    path: &[u8],
    root: Option<&[u8]>,
    parsed: Result<InstanceId, String>,
) -> (found: Result<InstanceId, ConfigError<String>>)
    ensures
        is_outcome(
            found,
            confirmed_id(
                path@,
                root_view(root),
                match parsed {
                    Ok(id) => Ok(id),
                    Err(error) => Err(error@),
                },
            ),
        ),
{
    let instance_id = match parsed {
        Ok(id) => id,
        Err(error) => return Err(ConfigError::InvalidInstanceId(error)),
    };
    let expected = match management_config_path(instance_id, root) {
        Some(expected) => expected,
        None => return Err(ConfigError::StoreNotInitialized),
    };
    if !same_path(expected.as_slice(), path) {
        return Err(ConfigError::OutsideStore);
    }
    Ok(instance_id)
}

/// The configuration of an instance is named by its hyphenated identifier, in the
/// managed directory below the root, next to which the socket stands.
pub proof fn lemma_managed_paths(root: Seq<u8>, id: InstanceId)
    ensures
        components(config_path_of(root, id)) == components(root) + seq![
            encode_utf8(".easytier-nearby-management"@),
            encode_utf8(hyphenated(id) + ".toml"@),
        ],
        components(socket_path_of(root)) == components(root) + seq![
            encode_utf8("easytier-nearby-management.sock"@),
        ],
        file_stem(config_path_of(root, id)) == Some(encode_utf8(hyphenated(id))),
{
    lemma_config_path_components(root, id);
    lemma_socket_path_components(root);
    lemma_config_file_name(id);
    assert(components(root).push(encode_utf8(MANAGEMENT_CONFIG_DIR_NAME@)).push(config_file_name(id))
        =~= components(root) + seq![
        encode_utf8(".easytier-nearby-management"@),
        encode_utf8(hyphenated(id) + ".toml"@),
    ]);
    assert(components(root).push(encode_utf8(MANAGEMENT_SOCKET_FILE_NAME@)) =~= components(root)
        + seq![encode_utf8("easytier-nearby-management.sock"@)]);
    assert(components(config_path_of(root, id)).last() == config_file_name(id));
}

/// A path names the instance that its file name spells, where it stands in the managed
/// directory below the root and is called by the hyphenated identifier; otherwise the
/// first thing that is wrong with it is what it is refused for.
pub proof fn lemma_config_id_outcomes(path: Seq<u8>, root: Option<Seq<u8>>)
    ensures
        (config_id(path, root) matches Err(ConfigError::InvalidPath)) <==> file_stem(path) is None
            || !valid_utf8(file_stem(path)->0),
        file_stem(path) is Some && valid_utf8(file_stem(path)->0) ==> match parsed_uuid(
            decode_utf8(file_stem(path)->0),
        ) {
            Err(words) => config_id(path, root) == Err::<InstanceId, ConfigError<Seq<char>>>(
                ConfigError::InvalidInstanceId(words),
            ),
            Ok(id) => {
                &&& root is None ==> config_id(path, root) == Err::<
                    InstanceId,
                    ConfigError<Seq<char>>,
                >(ConfigError::StoreNotInitialized)
                &&& root is Some && components(path) == components(root->0) + seq![
                    encode_utf8(".easytier-nearby-management"@),
                    encode_utf8(hyphenated(id) + ".toml"@),
                ] ==> config_id(path, root) == Ok::<InstanceId, ConfigError<Seq<char>>>(id)
                &&& root is Some && components(path) != components(root->0) + seq![
                    encode_utf8(".easytier-nearby-management"@),
                    encode_utf8(hyphenated(id) + ".toml"@),
                ] ==> config_id(path, root) == Err::<InstanceId, ConfigError<Seq<char>>>(
                    ConfigError::OutsideStore,
                )
            },
        },
{
    if file_stem(path) is Some && valid_utf8(file_stem(path)->0) && root is Some {
        match parsed_uuid(decode_utf8(file_stem(path)->0)) {
            Ok(id) => {
                lemma_managed_paths(root->0, id);
            },
            Err(_) => {},
        }
    }
}

/// Two paths with the same components are read alike.
pub proof fn lemma_equal_paths_are_read_alike(a: Seq<u8>, b: Seq<u8>, root: Option<Seq<u8>>)
    requires
        components(a) == components(b),
    ensures
        config_id(a, root) == config_id(b, root),
{
}

/// An error keeps its kind and its words.
pub proof fn lemma_errors_keep_their_kind(error: ConfigError<String>)
    ensures
        match error {
            ConfigError::InvalidPath => error_view(error) is InvalidPath,
            ConfigError::InvalidInstanceId(text) => error_view(error)
                == ConfigError::InvalidInstanceId(text@),
            ConfigError::StoreNotInitialized => error_view(error) is StoreNotInitialized,
            ConfigError::OutsideStore => error_view(error) is OutsideStore,
            ConfigError::NotUtf8(text) => error_view(error) == ConfigError::NotUtf8(text@),
            ConfigError::InstanceIdChanged => error_view(error) is InstanceIdChanged,
            ConfigError::NotPersisted => error_view(error) is NotPersisted,
            ConfigError::RemovalRefused => error_view(error) is RemovalRefused,
        },
        forall|expected: Result<InstanceId, ConfigError<Seq<char>>>| #[trigger]
            is_outcome(Err(error), expected) <==> expected == Err::<
                InstanceId,
                ConfigError<Seq<char>>,
            >(error_view(error)),
{
}

/// What is found is what was expected: an instance for that instance alone.
pub proof fn lemma_found_instances(
    id: InstanceId,
    expected: Result<InstanceId, ConfigError<Seq<char>>>,
)
    ensures
        is_outcome(Ok(id), expected) <==> (expected matches Ok(other) && other == id),
{
}

/// A path or a root is seen as its bytes, where there is one.
pub proof fn lemma_views_keep_the_bytes(root: Option<&[u8]>, path: Option<Vec<u8>>)
    ensures
        root_view(root) is Some <==> root is Some,
        root matches Some(bytes) ==> root_view(root)->0 == bytes@,
        path_view(path) is Some <==> path is Some,
        path matches Some(bytes) ==> path_view(path)->0 == bytes@,
{
}

} // verus!
