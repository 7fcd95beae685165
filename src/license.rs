use vstd::prelude::*;
use vstd::string::*;

verus! {

/// Key under which the license key is stored.
pub const LICENSE_KEY_NAME: &'static str = "pluely_license_key";

/// Key under which the activated instance's id is stored.
pub const INSTANCE_ID_NAME: &'static str = "pluely_instance_id";

/// One key/value pair to store.
#[derive(Clone, Debug)]
pub struct StorageItem {
    pub key: String,
    pub value: String,
}

/// The stored credentials as handed to the user interface.
#[derive(Clone, Debug)]
pub struct StorageResult {
    pub license_key: Option<String>,
    pub instance_id: Option<String>,
}

/// The credentials file's contents.
#[derive(Clone, Debug, Default)]
pub struct SecureStorage {
    pub license_key: Option<String>,
    pub instance_id: Option<String>,
}

/// Body of a license activation request.
#[derive(Clone, Debug)]
pub struct ActivationRequest {
    pub license_key: String,
    pub instance_name: String,
}

/// Body of a transcription request: one encoded utterance.
#[derive(Clone, Debug)]
pub struct AudioRequest {
    pub audio_base64: String,
}

/// A key that the credentials store does not know.
#[derive(Clone, Debug, PartialEq, Eq)]
pub enum StorageError {
    InvalidStorageKey(String),
}

pub struct StorageView {
    pub license_key: Option<Seq<char>>,
    pub instance_id: Option<Seq<char>>,
}

pub open spec fn opt_view(o: Option<String>) -> Option<Seq<char>> {
    match o {
        Some(s) => Some(s@),
        None => None,
    }
}

impl View for SecureStorage {
    type V = StorageView;

    open spec fn view(&self) -> StorageView {
        StorageView { license_key: opt_view(self.license_key), instance_id: opt_view(self.instance_id) }
    }
}

/// Stores the items in order; the first unknown key rejects the whole batch.
pub open spec fn apply_saves(st: StorageView, items: Seq<StorageItem>) -> Result<StorageView, Seq<char>>
    decreases items.len(),
{
    if items.len() == 0 {
        Ok(st)
    } else {
        let it = items[0];
        if it.key@ == LICENSE_KEY_NAME@ {
            apply_saves(StorageView { license_key: Some(it.value@), ..st }, items.drop_first())
        } else if it.key@ == INSTANCE_ID_NAME@ {
            apply_saves(StorageView { instance_id: Some(it.value@), ..st }, items.drop_first())
        } else {
            Err(it.key@)
        }
    }
}

/// Clears the keys in order; the first unknown key rejects the whole batch.
pub open spec fn apply_removals(st: StorageView, keys: Seq<String>) -> Result<StorageView, Seq<char>>
    decreases keys.len(),
{
    if keys.len() == 0 {
        Ok(st)
    } else {
        let k = keys[0];
        if k@ == LICENSE_KEY_NAME@ {
            apply_removals(StorageView { license_key: None, ..st }, keys.drop_first())
        } else if k@ == INSTANCE_ID_NAME@ {
            apply_removals(StorageView { instance_id: None, ..st }, keys.drop_first())
        } else {
            Err(k@)
        }
    }
}

fn clone_opt(o: &Option<String>) -> (r: Option<String>)
    ensures
        opt_view(r) == opt_view(*o),
{
    match o {
        Some(s) => Some(s.clone()),
        None => None,
    }
}

/// Applies a batch of saves to the stored credentials. On an unknown key
/// nothing changes and the key is reported.
pub fn secure_storage_save(storage: &mut SecureStorage, items: &Vec<StorageItem>) -> (r: Result<
    (),
    StorageError,
>)
    ensures
        apply_saves(old(storage)@, items@) matches Ok(st) ==> r is Ok && final(storage)@ == st,
        apply_saves(old(storage)@, items@) matches Err(k) ==> (r matches Err(
            StorageError::InvalidStorageKey(e),
        ) && e@ == k) && final(storage)@ == old(storage)@,
{
    let license_name = String::from_str(LICENSE_KEY_NAME);
    let instance_name = String::from_str(INSTANCE_ID_NAME);
    let mut license_key = clone_opt(&storage.license_key);
    let mut instance_id = clone_opt(&storage.instance_id);
    let mut i: usize = 0;
    assert(items@.skip(0) =~= items@);
    while i < items.len()
        invariant
            i <= items@.len(),
            license_name@ == LICENSE_KEY_NAME@,
            instance_name@ == INSTANCE_ID_NAME@,
            apply_saves(old(storage)@, items@) == apply_saves(
                StorageView { license_key: opt_view(license_key), instance_id: opt_view(instance_id) },
                items@.skip(i as int),
            ),
            *storage == *old(storage),
        decreases items@.len() - i,
    {
        let item = &items[i];
        assert(items@.skip(i as int)[0] == items@[i as int]);
        assert(items@.skip(i as int).drop_first() =~= items@.skip(i + 1));
        if item.key == license_name {
            license_key = Some(item.value.clone());
        } else if item.key == instance_name {
            instance_id = Some(item.value.clone());
        } else {
            return Err(StorageError::InvalidStorageKey(item.key.clone()));
        }
        i = i + 1;
    }
    storage.license_key = license_key;
    storage.instance_id = instance_id;
    Ok(())
}


/// Clears the named keys from the stored credentials. On an unknown key
/// nothing changes and the key is reported.
pub fn secure_storage_remove(storage: &mut SecureStorage, keys: &Vec<String>) -> (r: Result<
    (),
    StorageError,
>)
    ensures
        apply_removals(old(storage)@, keys@) matches Ok(st) ==> r is Ok && final(storage)@ == st,
        apply_removals(old(storage)@, keys@) matches Err(k) ==> (r matches Err(
            StorageError::InvalidStorageKey(e),
        ) && e@ == k) && final(storage)@ == old(storage)@,
{
    let license_name = String::from_str(LICENSE_KEY_NAME);
    let instance_name = String::from_str(INSTANCE_ID_NAME);
    let mut clear_license = false;
    let mut clear_instance = false;
    let mut i: usize = 0;
    assert(keys@.skip(0) =~= keys@);
    while i < keys.len()
        invariant
            i <= keys@.len(),
            license_name@ == LICENSE_KEY_NAME@,
            instance_name@ == INSTANCE_ID_NAME@,
            apply_removals(old(storage)@, keys@) == apply_removals(
                StorageView {
                    license_key: if clear_license { None } else { old(storage)@.license_key },
                    instance_id: if clear_instance { None } else { old(storage)@.instance_id },
                },
                keys@.skip(i as int),
            ),
            *storage == *old(storage),
        decreases keys@.len() - i,
    {
        let key = &keys[i];
        assert(keys@.skip(i as int)[0] == keys@[i as int]);
        assert(keys@.skip(i as int).drop_first() =~= keys@.skip(i + 1));
        if *key == license_name {
            clear_license = true;
        } else if *key == instance_name {
            clear_instance = true;
        } else {
            return Err(StorageError::InvalidStorageKey(key.clone()));
        }
        i = i + 1;
    }
    if clear_license {
        storage.license_key = None;
    }
    if clear_instance {
        storage.instance_id = None;
    }
    Ok(())
}

/// The stored credentials as the user interface sees them.
pub fn secure_storage_get(storage: &SecureStorage) -> (r: StorageResult)
    ensures
        opt_view(r.license_key) == storage@.license_key,
        opt_view(r.instance_id) == storage@.instance_id,
{
    StorageResult {
        license_key: clone_opt(&storage.license_key),
        instance_id: clone_opt(&storage.instance_id),
    }
}

/// Both credentials a licensed request needs, if both are stored.
pub fn get_stored_credentials(storage: &SecureStorage) -> (r: Option<(String, String)>)
    ensures
        r matches Some(c) ==> storage@.license_key == Some(c.0@) && storage@.instance_id == Some(
            c.1@,
        ),
        r is None ==> storage@.license_key is None || storage@.instance_id is None,
{
    match (&storage.license_key, &storage.instance_id) {
        (Some(k), Some(id)) => Some((k.clone(), id.clone())),
        _ => None,
    }
}

/// A license key shown with all but its first and last four characters
/// starred; a key of eight characters or fewer is starred entirely.
pub open spec fn masked(key: Seq<char>) -> Seq<char> {
    if key.len() <= 8 {
        Seq::new(key.len(), |i: int| '*')
    } else {
        key.subrange(0, 4) + Seq::new((key.len() - 8) as nat, |i: int| '*') + key.subrange(
            key.len() - 4,
            key.len() as int,
        )
    }
}

fn stars(n: usize) -> (r: String)
    ensures
        r@ == Seq::new(n as nat, |i: int| '*'),
{
    let mut out = String::new();
    let mut i: usize = 0;
    proof {
        reveal_strlit("*");
    }
    while i < n
        invariant
            i <= n,
            out@ =~= Seq::new(i as nat, |j: int| '*'),
            "*"@ == seq!['*'],
        decreases n - i,
    {
        out.append("*");
        i = i + 1;
    }
    out
}

/// Masks a license key for display.
pub fn mask_license_key_cmd(license_key: &str) -> (r: String)
    ensures
        r@ == masked(license_key@),
{
    let n = license_key.unicode_len();
    if n <= 8 {
        return stars(n);
    }
    let head = license_key.substring_char(0, 4);
    let tail = license_key.substring_char(n - 4, n);
    let mut out = String::from_str(head);
    let middle = stars(n - 8);
    out.append(middle.as_str());
    out.append(tail);
    out
}

/// The body of an activation request for `license_key` under a fresh instance name.
pub fn activation_request(license_key: String, instance_name: String) -> (r: ActivationRequest)
    ensures
        r.license_key == license_key,
        r.instance_name == instance_name,
{
    ActivationRequest { license_key, instance_name }
}

/// The body of a transcription request for one encoded utterance.
pub fn audio_request(audio_base64: String) -> (r: AudioRequest)
    ensures
        r.audio_base64 == audio_base64,
{
    AudioRequest { audio_base64 }
}

} // verus!
