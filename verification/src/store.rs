//! Saved session profiles and commands, and the form in which a profile
//! goes to disk: as it is, but for its two passwords, which are sealed.

use vstd::prelude::*;
use crate::secrets::{decrypt, decrypted, encrypt, encrypted, SecretError, NONCE_LEN};
use crate::text::{copy_of, text_of};

verus! {

/// A session profile as the user saved it.
#[derive(Debug, Clone, PartialEq, Eq)]
pub struct Session {
    pub id: String,
    pub name: String,
    pub host: String,
    pub port: i32,
    pub username: String,
    pub password: Option<String>,
    pub jump_host: Option<String>,
    pub jump_port: Option<i32>,
    pub jump_username: Option<String>,
    pub jump_password: Option<String>,
    pub color: String,
    pub group_id: Option<String>,
    pub created_at: String,
}

/// A command the user saved, for one session or for all.
#[derive(Debug, Clone, PartialEq, Eq)]
pub struct SavedCommand {
    pub id: String,
    pub session_id: Option<String>,
    pub name: String,
    pub command: String,
}

/// `Session` with its texts as characters.
pub struct SessionView {
    pub id: Seq<char>,
    pub name: Seq<char>,
    pub host: Seq<char>,
    pub port: i32,
    pub username: Seq<char>,
    pub password: Option<Seq<char>>,
    pub jump_host: Option<Seq<char>>,
    pub jump_port: Option<i32>,
    pub jump_username: Option<Seq<char>>,
    pub jump_password: Option<Seq<char>>,
    pub color: Seq<char>,
    pub group_id: Option<Seq<char>>,
    pub created_at: Seq<char>,
}

/// `SavedCommand` with its texts as characters.
pub struct SavedCommandView {
    pub id: Seq<char>,
    pub session_id: Option<Seq<char>>,
    pub name: Seq<char>,
    pub command: Seq<char>,
}

impl View for Session {
    type V = SessionView;

    open spec fn view(&self) -> SessionView {
        SessionView {
            id: self.id@,
            name: self.name@,
            host: self.host@,
            port: self.port,
            username: self.username@,
            password: text_of(self.password),
            jump_host: text_of(self.jump_host),
            jump_port: self.jump_port,
            jump_username: text_of(self.jump_username),
            jump_password: text_of(self.jump_password),
            color: self.color@,
            group_id: text_of(self.group_id),
            created_at: self.created_at@,
        }
    }
}

impl View for SavedCommand {
    type V = SavedCommandView;

    open spec fn view(&self) -> SavedCommandView {
        SavedCommandView {
            id: self.id@,
            session_id: text_of(self.session_id),
            name: self.name@,
            command: self.command@,
        }
    }
}

/// Whether `stored` is a stored form of the password `plain` under `key`:
/// none for none, and else its sealing with some nonce.
pub open spec fn stores(key: Seq<u8>, plain: Option<Seq<char>>, stored: Option<Seq<char>>) -> bool {
    match plain {
        None => stored is None,
        Some(p) => stored matches Some(s) && exists|nonce: Seq<u8>|
            nonce.len() == NONCE_LEN && #[trigger] encrypted(key, nonce, p) == Ok::<
                Seq<char>,
                SecretError,
            >(s),
    }
}

/// Whether the password `plain` is stored without a call on the cipher:
/// there is none, or it is empty.
pub open spec fn unsealed(plain: Option<Seq<char>>) -> bool {
    match plain {
        None => true,
        Some(p) => p.len() == 0,
    }
}

/// What a stored password reads back to: a value that cannot be read
/// counts as none.
pub open spec fn recovered(key: Seq<u8>, stored: Option<Seq<char>>) -> Option<Seq<char>> {
    match decrypted(key, stored) {
        Ok(v) => v,
        Err(_) => None,
    }
}

/// The stored form of an optional password.
fn seal_password(key: &[u8; 32], plain: &Option<String>) -> (r: Result<Option<String>, SecretError>)
    ensures
        r matches Ok(s) ==> stores(key@, text_of(*plain), text_of(s)),
        text_of(*plain) matches Some(p) ==> p.len() > 0 || r is Ok,
        text_of(*plain) is None ==> r is Ok,
        r matches Err(e) ==> e == SecretError::Random || e == SecretError::Cipher,
{
    match plain {
        None => Ok(None),
        Some(p) => match encrypt(key, p.as_str()) {
            Ok(s) => Ok(Some(s)),
            Err(e) => Err(e),
        },
    }
}

/// What a stored optional password reads back to.
fn recover_password(key: &[u8; 32], stored: &Option<String>) -> (r: Option<String>)
    ensures
        text_of(r) == recovered(key@, text_of(*stored)),
{
    match decrypt(key, stored) {
        Ok(v) => v,
        Err(_) => None,
    }
}

/// The profile `session` as it goes to disk: its password and its jump
/// password sealed under `key`, everything else as it is. Fails where a
/// password cannot be sealed.
pub fn seal_session(key: &[u8; 32], session: &Session) -> (r: Result<Session, SecretError>)
    ensures
        r matches Ok(stored) ==> {
            &&& stores(key@, session@.password, stored@.password)
            &&& stores(key@, session@.jump_password, stored@.jump_password)
            &&& stored@ == (SessionView {
                password: stored@.password,
                jump_password: stored@.jump_password,
                ..session@
            })
        },
        unsealed(session@.password) && unsealed(session@.jump_password) ==> r is Ok,
        r matches Err(e) ==> e == SecretError::Random || e == SecretError::Cipher,
{
    let password = match seal_password(key, &session.password) {
        Ok(p) => p,
        Err(e) => {
            return Err(e);
        },
    };
    let jump_password = match seal_password(key, &session.jump_password) {
        Ok(p) => p,
        Err(e) => {
            return Err(e);
        },
    };
    Ok(
        Session {
            id: session.id.clone(),
            name: session.name.clone(),
            host: session.host.clone(),
            port: session.port,
            username: session.username.clone(),
            password,
            jump_host: copy_of(&session.jump_host),
            jump_port: session.jump_port,
            jump_username: copy_of(&session.jump_username),
            jump_password,
            color: session.color.clone(),
            group_id: copy_of(&session.group_id),
            created_at: session.created_at.clone(),
        },
    )
}

/// The profile that the stored record `stored` stands for: its two
/// passwords read back under `key`, none where one cannot be read,
/// everything else as it is.
pub fn unseal_session(key: &[u8; 32], stored: Session) -> (r: Session)
    ensures
        r@ == (SessionView {
            password: recovered(key@, stored@.password),
            jump_password: recovered(key@, stored@.jump_password),
            ..stored@
        }),
{
    let password = recover_password(key, &stored.password);
    let jump_password = recover_password(key, &stored.jump_password);
    Session {
        id: stored.id,
        name: stored.name,
        host: stored.host,
        port: stored.port,
        username: stored.username,
        password,
        jump_host: stored.jump_host,
        jump_port: stored.jump_port,
        jump_username: stored.jump_username,
        jump_password,
        color: stored.color,
        group_id: stored.group_id,
        created_at: stored.created_at,
    }
}

} // verus!
