use base58::{FromBase58, ToBase58};
use pallets::certificate::bytes::{append_bytes, same_bytes, u64_le_bytes, Bytes};
use pallets::certificate::identifier::{
    cert_data, cert_id_from_hash, issue_data, issued_id_from_hash, BlakeTwo256, CertId, Hashing,
    IssuedId,
};
use pallets::certificate::pallet::{
    ensure_signed, BadOrigin, CertDetail, CertProof, Config, Creator, DispatchError, Error, Event,
    Organization, Origin, Pallet,
};
use pallets::certificate::storage::{Account, StorageKey, StorageMap, Stored};

type AccountId = [u8; 32];

struct Test;

impl Config for Test {
    type AccountId = AccountId;
    type Hashing = BlakeTwo256;
    type Moment = u64;
}

const ALICE: AccountId = [1; 32];
const BOB: AccountId = [2; 32];
const CHARLIE: AccountId = [3; 32];
const DAVE: AccountId = [4; 32];

/// The organizations, each with its admin.
#[derive(Default)]
struct Organizations {
    list: Vec<(AccountId, AccountId, bool)>,
}

impl Organizations {
    fn create_org(&mut self, name: &[u8], admin: AccountId) -> AccountId {
        let id = Pallet::<Test>::generate_hash(name.to_vec());
        self.list.push((id, admin, false));
        id
    }

    fn organization(&self, id: &AccountId) -> Option<Organization<AccountId>> {
        self.list
            .iter()
            .find(|(org_id, _, _)| org_id == id)
            .map(|(_, admin, suspended)| Organization { admin: *admin, suspended: *suspended })
    }

    fn ensure_access(&self, who: &AccountId, id: &AccountId) -> Option<Organization<AccountId>> {
        self.organization(id).filter(|org| org.admin == *who)
    }

    /// Recognizes the admins of organizations.
    fn ensure_org_admin(
        &self,
        origin: Origin<AccountId>,
    ) -> Result<Creator<AccountId>, BadOrigin> {
        let sender = ensure_signed(origin)?;
        let org_ids: Vec<AccountId> = self
            .list
            .iter()
            .filter(|(_, admin, _)| *admin == sender)
            .map(|(org_id, _, _)| *org_id)
            .collect();
        if org_ids.is_empty() {
            Err(BadOrigin)
        } else {
            Ok(Creator { sender, org_ids })
        }
    }
}

struct Ext {
    orgs: Organizations,
    pallet: Pallet<Test>,
    now: u64,
}

impl Ext {
    fn new() -> Self {
        Ext { orgs: Organizations::default(), pallet: Pallet::new(), now: 1_600_000_000_000 }
    }

    fn create_cert(
        &mut self,
        origin: Origin<AccountId>,
        org_id: AccountId,
        name: &[u8],
        description: &[u8],
    ) -> Result<(), DispatchError> {
        self.pallet.create_cert(
            self.orgs.ensure_org_admin(origin),
            org_id,
            name.to_vec(),
            description.to_vec(),
            self.orgs.organization(&org_id),
        )
    }

    fn issue_cert(
        &mut self,
        signer: AccountId,
        org_id: AccountId,
        cert_id: CertId,
        recipient: &[u8],
        additional_data: &[u8],
        acc_handler: Option<AccountId>,
    ) -> Result<(), DispatchError> {
        self.pallet.issue_cert(
            Origin::Signed(signer),
            org_id,
            cert_id,
            recipient.to_vec(),
            additional_data.to_vec(),
            acc_handler,
            self.orgs.organization(&org_id),
            self.orgs.ensure_access(&signer, &org_id),
            self.now,
        )
    }

    fn get_last_created_cert_id(&self) -> Option<CertId> {
        match self.pallet.events.last() {
            Some(Event::CertAdded(_, cert_id, _)) => Some(*cert_id),
            _ => None,
        }
    }

    fn get_last_issued_cert_id(&self) -> Option<IssuedId> {
        match self.pallet.events.last() {
            Some(Event::CertIssued(issue_id, _)) => Some(issue_id.clone()),
            _ => None,
        }
    }
}

fn refused(error: Error) -> Result<(), DispatchError> {
    Err(DispatchError::Module(error))
}

#[test]
fn issue_cert_should_work() {
    let mut ext = Ext::new();
    let org_id = ext.orgs.create_org(b"ORG1", BOB);

    assert!(ext.create_cert(Origin::Signed(BOB), org_id, b"CERT1", b"CERT1 desc").is_ok());

    let cert_id = ext.get_last_created_cert_id().expect("cert_id of new created cert");
    println!("cert_id: {:#?}", cert_id.to_base58());
    assert_eq!(ext.pallet.get(&cert_id).map(|a| a.org_id), Some(org_id));

    assert!(ext.issue_cert(BOB, org_id, cert_id, b"Dave", b"ADDITIONAL DATA", None).is_ok());
    let issued_id = ext.get_last_issued_cert_id().expect("get last issued id");
    println!("issued_id: {:?}", std::str::from_utf8(&issued_id));
}

#[test]
fn only_org_admin_can_create_cert() {
    let mut ext = Ext::new();
    let org_id = ext.orgs.create_org(b"ORG2", CHARLIE);
    assert_eq!(
        ext.create_cert(Origin::Signed(BOB), org_id, b"CERT1", b"CERT1 desc"),
        Err(DispatchError::BadOrigin)
    );
    assert_eq!(ext.pallet.cert_id_index, None);
    assert!(ext.pallet.events.is_empty());
}

#[test]
fn created_certificate_is_found() {
    let mut ext = Ext::new();
    let org_id = ext.orgs.create_org(b"ORG1", BOB);
    assert_eq!(ext.create_cert(Origin::Signed(BOB), org_id, b"CERT1", b"CERT1 desc"), Ok(()));

    let mut data = 1u64.to_le_bytes().to_vec();
    data.extend_from_slice(b"CERT1");
    data.extend_from_slice(b"CERT1 desc");
    let cert_id = sp_core::hashing::blake2_256(&data);
    let detail = ext.pallet.get(&cert_id).unwrap();
    assert_eq!(detail.name, b"CERT1".to_vec());
    assert_eq!(detail.description, b"CERT1 desc".to_vec());
    assert_eq!(detail.org_id, org_id);
    assert_eq!(ext.pallet.cert_id_index, Some(1));
    assert!(matches!(ext.pallet.events[0], Event::CertAdded(1, id, org) if id == cert_id && org == org_id));

    // the same certificate again gets another identifier
    assert_eq!(ext.create_cert(Origin::Signed(BOB), org_id, b"CERT1", b"CERT1 desc"), Ok(()));
    assert_ne!(ext.get_last_created_cert_id(), Some(cert_id));
    assert_eq!(ext.pallet.cert_id_index, Some(2));
    assert!(ext.pallet.get(&cert_id).is_some());
    assert!(ext.pallet.get(&[9; 32]).is_none());
}

#[test]
fn certificate_names_are_limited() {
    let mut ext = Ext::new();
    let org_id = ext.orgs.create_org(b"ORG1", BOB);
    assert_eq!(
        ext.create_cert(Origin::Signed(BOB), org_id, b"CE", b""),
        refused(Error::TooShort)
    );
    assert_eq!(
        ext.create_cert(Origin::Signed(BOB), org_id, &[b'x'; 101], b""),
        refused(Error::TooLong)
    );
    // the name is looked at before the origin
    assert_eq!(ext.create_cert(Origin::Root, org_id, b"CE", b""), refused(Error::TooShort));
    assert_eq!(ext.create_cert(Origin::Signed(BOB), org_id, b"CER", b""), Ok(()));
    assert_eq!(ext.create_cert(Origin::Signed(BOB), org_id, &[b'x'; 100], b""), Ok(()));
}

#[test]
fn creation_needs_the_admin_of_the_organization() {
    let mut ext = Ext::new();
    let org1 = ext.orgs.create_org(b"ORG1", BOB);
    let org2 = ext.orgs.create_org(b"ORG2", CHARLIE);
    for origin in [Origin::Root, Origin::Unsigned] {
        assert_eq!(ext.create_cert(origin, org1, b"CERT1", b""), Err(DispatchError::BadOrigin));
    }
    // an admin, of another organization
    assert_eq!(
        ext.create_cert(Origin::Signed(BOB), org2, b"CERT1", b""),
        refused(Error::PermissionDenied)
    );
    let creator = || Ok(Creator { sender: BOB, org_ids: vec![ALICE, org2] });
    // an organization that is not known
    assert_eq!(
        ext.pallet.create_cert(creator(), org2, b"CERT1".to_vec(), vec![], None),
        refused(Error::NotExists)
    );
    // an organization with another admin
    assert_eq!(
        ext.pallet.create_cert(
            creator(),
            org2,
            b"CERT1".to_vec(),
            vec![],
            ext.orgs.organization(&org2),
        ),
        refused(Error::PermissionDenied)
    );
    assert_eq!(ext.pallet.cert_id_index, None);
    assert!(ext.pallet.events.is_empty());
}

#[test]
fn taken_identifier_uses_up_an_index() {
    let mut ext = Ext::new();
    let org_id = ext.orgs.create_org(b"ORG1", BOB);
    let taken = Pallet::<Test>::generate_hash(cert_data(1, b"CERT1", b"desc"));
    let detail = CertDetail { name: b"OLD".to_vec(), description: vec![], org_id: ALICE };
    ext.pallet.certificates.insert(taken, detail);
    assert_eq!(
        ext.create_cert(Origin::Signed(BOB), org_id, b"CERT1", b"desc"),
        refused(Error::IdAlreadyExists)
    );
    assert_eq!(ext.pallet.cert_id_index, Some(1));
    assert_eq!(ext.pallet.get(&taken).unwrap().name, b"OLD".to_vec());
    assert!(ext.pallet.events.is_empty());
    // the next try has another index
    assert_eq!(ext.create_cert(Origin::Signed(BOB), org_id, b"CERT1", b"desc"), Ok(()));
    assert_eq!(ext.pallet.cert_id_index, Some(2));
}

#[test]
fn index_saturates() {
    let mut pallet = Pallet::<Test>::new();
    assert_eq!(pallet.increment_index(), 1);
    assert_eq!(pallet.increment_index(), 2);
    pallet.cert_id_index = Some(u64::MAX - 1);
    assert_eq!(pallet.increment_index(), u64::MAX);
    assert_eq!(pallet.increment_index(), u64::MAX);
    assert_eq!(pallet.cert_id_index, Some(u64::MAX));
    assert_eq!(pallet.account_id_index(), None);
}

fn with_certificate() -> (Ext, AccountId, CertId) {
    let mut ext = Ext::new();
    let org_id = ext.orgs.create_org(b"ORG1", BOB);
    ext.create_cert(Origin::Signed(BOB), org_id, b"CERT1", b"CERT1 desc").unwrap();
    let cert_id = ext.get_last_created_cert_id().unwrap();
    (ext, org_id, cert_id)
}

#[test]
fn issued_certificate_is_found() {
    let (mut ext, org_id, cert_id) = with_certificate();
    assert_eq!(ext.issue_cert(BOB, org_id, cert_id, b"Dave", b"DATA", None), Ok(()));

    let mut data = org_id.to_vec();
    data.extend_from_slice(&cert_id);
    data.extend_from_slice(b"Dave");
    data.extend_from_slice(b"DATA");
    let text = sp_core::hashing::blake2_256(&data).to_base58();
    let mut issue_id = text.as_bytes()[..5].to_vec();
    issue_id.extend_from_slice(&text.as_bytes()[text.len() - 5..]);
    assert_eq!(ext.get_last_issued_cert_id(), Some(issue_id.clone()));

    let found = ext.pallet.issued_cert(&org_id, &issue_id).unwrap();
    assert_eq!(found.cert_id, cert_id);
    assert_eq!(found.human_id, b"Dave".to_vec());
    assert_eq!(found.time, 1_600_000_000_000);
    assert!(ext.pallet.issued_cert(&ALICE, &issue_id).is_none());
    assert!(matches!(ext.pallet.events[1], Event::CertIssued(_, None)));
}

#[test]
fn nothing_is_issued_twice() {
    let (mut ext, org_id, cert_id) = with_certificate();
    assert_eq!(ext.issue_cert(BOB, org_id, cert_id, b"Dave", b"DATA", None), Ok(()));
    ext.now += 1;
    assert_eq!(
        ext.issue_cert(BOB, org_id, cert_id, b"Dave", b"DATA", None),
        refused(Error::AlreadyExists)
    );
    assert_eq!(ext.issue_cert(BOB, org_id, cert_id, b"Dave", b"MORE", None), Ok(()));
    assert_eq!(ext.issue_cert(BOB, org_id, cert_id, b"Eve", b"DATA", None), Ok(()));
    assert_eq!(ext.pallet.events.len(), 4);
}

#[test]
fn issue_needs_a_certificate_and_the_admin() {
    let (mut ext, org_id, cert_id) = with_certificate();
    for origin in [Origin::Root, Origin::Unsigned] {
        assert_eq!(
            ext.pallet.issue_cert(
                origin,
                org_id,
                cert_id,
                vec![],
                vec![],
                None,
                ext.orgs.organization(&org_id),
                ext.orgs.organization(&org_id),
                0,
            ),
            Err(DispatchError::BadOrigin)
        );
    }
    assert_eq!(
        ext.issue_cert(BOB, org_id, [9; 32], b"Dave", b"", None),
        refused(Error::NotExists)
    );
    assert_eq!(
        ext.issue_cert(BOB, org_id, cert_id, b"Dave", &[0; 100], None),
        refused(Error::TooLong)
    );
    assert_eq!(
        ext.issue_cert(BOB, ALICE, cert_id, b"Dave", b"", None),
        refused(Error::Unknown)
    );
    assert_eq!(
        ext.issue_cert(CHARLIE, org_id, cert_id, b"Dave", b"", None),
        refused(Error::PermissionDenied)
    );
    ext.orgs.list[0].2 = true;
    assert_eq!(
        ext.issue_cert(BOB, org_id, cert_id, b"Dave", b"", None),
        refused(Error::PermissionDenied)
    );
    assert_eq!(
        ext.pallet.issue_cert(
            Origin::Signed(BOB),
            org_id,
            cert_id,
            vec![],
            vec![],
            None,
            ext.orgs.organization(&org_id),
            None,
            0,
        ),
        refused(Error::PermissionDenied)
    );
    assert_eq!(ext.pallet.events.len(), 1);
    ext.orgs.list[0].2 = false;
    assert_eq!(ext.issue_cert(BOB, org_id, cert_id, b"Dave", &[0; 99], None), Ok(()));
}

#[test]
fn access_is_denied_to_suspended_organizations() {
    let org = |suspended| Some(Organization { admin: BOB, suspended });
    assert_eq!(Pallet::<Test>::ensure_org_access(org(false)).unwrap().admin, BOB);
    assert_eq!(Pallet::<Test>::ensure_org_access(org(true)).err(), Some(Error::PermissionDenied));
    assert_eq!(Pallet::<Test>::ensure_org_access(None).err(), Some(Error::PermissionDenied));
}

#[test]
fn accounts_hold_the_proofs_of_their_issues() {
    let (mut ext, org_id, cert_id) = with_certificate();
    // an account that holds nothing of the organization
    assert_eq!(
        ext.issue_cert(BOB, org_id, cert_id, b"Dave", b"", Some(DAVE)),
        refused(Error::Unknown)
    );
    assert!(ext.pallet.issued_cert_owner(&org_id, &DAVE).is_none());
    assert_eq!(ext.pallet.events.len(), 1);

    ext.pallet.issued_cert_owner.insert((org_id, DAVE), Vec::new());
    assert_eq!(ext.issue_cert(BOB, org_id, cert_id, b"Dave", b"", Some(DAVE)), Ok(()));
    assert_eq!(ext.issue_cert(BOB, org_id, cert_id, b"Dave", b"2", Some(DAVE)), Ok(()));
    let held = ext.pallet.issued_cert_owner(&org_id, &DAVE).unwrap();
    assert_eq!(held.len(), 2);
    assert_eq!(held[0].human_id, b"Dave".to_vec());
    assert_eq!(held[1].cert_id, cert_id);
    assert!(matches!(ext.pallet.events[2], Event::CertIssued(_, Some(DAVE))));
}

#[test]
fn issued_ids_are_cut_from_base58() {
    // "StV1DL6CwTryKyV" in base 58
    assert_eq!(issued_id_from_hash(b"hello world"), b"StV1DryKyV".to_vec());
    assert_eq!(issued_id_from_hash(&[0; 32]), b"1111111111".to_vec());
    let mut data = [255u8; 32];
    data[0] = 0;
    let text = data.to_base58();
    assert_eq!(text.from_base58().unwrap(), data.to_vec());
    let id = issued_id_from_hash(&data);
    assert_eq!(id[..5], text.as_bytes()[..5]);
    assert_eq!(id[5..], text.as_bytes()[text.len() - 5..]);
    assert_eq!(id[0], b'1');
}

#[test]
fn issued_ids_are_ten_characters() {
    for n in 0..200u32 {
        let id = Pallet::<Test>::generate_issued_id(n.to_le_bytes().to_vec());
        assert_eq!(id.len(), 10);
        assert!(id.iter().all(|c| c.is_ascii_alphanumeric() && !b"0IOl".contains(c)));
    }
}

#[test]
fn cert_ids_are_hashes() {
    let data = b"some data".to_vec();
    let hash = sp_core::hashing::blake2_256(&data);
    assert_eq!(Pallet::<Test>::generate_hash(data.clone()), hash);
    assert_eq!(BlakeTwo256::encoded_hash(&data), hash.to_vec());
    let longer: Vec<u8> = (0..40).collect();
    assert_eq!(cert_id_from_hash(&longer).to_vec(), longer[..32].to_vec());
}

struct BlakeTwo512;

impl Hashing for BlakeTwo512 {
    // The specification function is never executed.

    fn digest(_data: Bytes) -> Bytes {
        unreachable!()
    }

    fn encoded_hash(data: &[u8]) -> Vec<u8> {
        sp_core::hashing::blake2_512(data).to_vec()
    }
}

struct LongHashes;

impl Config for LongHashes {
    type AccountId = AccountId;
    type Hashing = BlakeTwo512;
    type Moment = u64;
}

#[test]
fn longer_hashes_are_cut() {
    let data = b"some data".to_vec();
    let hash = sp_core::hashing::blake2_512(&data);
    assert_eq!(Pallet::<LongHashes>::generate_hash(data.clone()).to_vec(), hash[..32].to_vec());
    let text = hash.to_base58().into_bytes();
    let id = Pallet::<LongHashes>::generate_issued_id(data);
    assert_eq!(id[..5], text[..5]);
    assert_eq!(id[5..], text[text.len() - 5..]);
}

#[test]
fn next_identifier_is_that_of_the_next_certificate() {
    let mut ext = Ext::new();
    let org_id = ext.orgs.create_org(b"ORG1", BOB);
    let next = ext.pallet.next_cert_id(b"CERT1", b"CERT1 desc");
    assert_eq!(ext.pallet.cert_id_index, None);
    assert_eq!(ext.create_cert(Origin::Signed(BOB), org_id, b"CERT1", b"CERT1 desc"), Ok(()));
    assert_eq!(ext.get_last_created_cert_id(), Some(next));
    assert_ne!(ext.pallet.next_cert_id(b"CERT1", b"CERT1 desc"), next);
}

#[test]
fn data_of_identifiers() {
    assert_eq!(
        cert_data(0x0102, b"ab", b"c"),
        vec![2, 1, 0, 0, 0, 0, 0, 0, b'a', b'b', b'c']
    );
    let mut expected = vec![7u8];
    expected.extend_from_slice(&[5; 32]);
    expected.extend_from_slice(b"rd");
    assert_eq!(issue_data(&[7], &[5; 32], b"r", b"d"), expected);
    assert_eq!(u64_le_bytes(u64::MAX - 1), (u64::MAX - 1).to_le_bytes().to_vec());
}

#[test]
fn byte_strings() {
    assert!(same_bytes(b"abc", b"abc"));
    assert!(!same_bytes(b"abc", b"abd"));
    assert!(!same_bytes(b"abc", b"ab"));
    let mut bytes = b"ab".to_vec();
    append_bytes(&mut bytes, b"cd");
    assert_eq!(bytes, b"abcd".to_vec());
}

#[test]
fn storage_keeps_the_last_value_of_a_key() {
    let mut map: StorageMap<(Vec<u8>, [u8; 32]), Vec<u8>> = StorageMap::new();
    let key = |n: u8| (vec![n], [n; 32]);
    assert!(!map.contains_key(&key(1)));
    map.insert(key(1), vec![1]);
    map.insert(key(2), vec![2]);
    map.insert(key(1), vec![3]);
    assert_eq!(map.get(&key(1)), Some(vec![3]));
    assert_eq!(map.get(&key(2)), Some(vec![2]));
    assert_eq!(map.get(&(vec![1], [2; 32])), None);
    assert!(map.contains_key(&key(2)));
    assert!(key(1).same(&key(1)) && !key(1).same(&key(2)));
    assert_eq!(key(1).duplicate(), key(1));
    assert_eq!(vec![1u8, 2].as_bytes(), &[1, 2]);
    assert_eq!(ALICE.as_bytes(), &ALICE);
}

#[test]
fn proofs_hold_what_they_are_made_of() {
    let made: CertProof<Test> = CertProof::new([5; 32], b"Dave".to_vec(), 42);
    assert_eq!(made.cert_id, [5; 32]);
    assert_eq!(made.human_id, b"Dave".to_vec());
    assert_eq!(made.time, 42);
}
