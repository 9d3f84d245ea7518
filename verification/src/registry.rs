//! The directory of the platform: coordinators by name and workers by id,
//! each with its owner and deployment details.
//!
//! Registration asks for a minimum deposit. The deposit that came with a
//! call, the caller's account and the block time are handed in as plain
//! values; amounts are in yoctoNEAR.

use crate::lookup::{find_first, keys_of};
use crate::model::{lemma_push_unique, position};
use crate::types::clone_optional_text;
use vstd::prelude::*;

verus! {

/// The deposit asked for until the admin sets another: 0.1 NEAR.
pub const DEFAULT_MIN_DEPOSIT: u128 = 100_000_000_000_000_000_000_000;

/// The shortest name, in bytes of UTF-8.
pub const MIN_NAME_BYTES: usize = 2;

/// The longest name, in bytes of UTF-8.
pub const MAX_NAME_BYTES: usize = 64;

/// One namespace per persisted collection of the directory.
#[derive(Clone, Copy, PartialEq, Eq, Structural, Debug)]
pub enum StorageKey {
    Coordinators,
    Workers,
}

impl StorageKey {
    /// The position of the namespace in the declaration, from 0.
    pub open spec fn ordinal_of(self) -> u8 {
        match self {
            StorageKey::Coordinators => 0,
            StorageKey::Workers => 1,
        }
    }

    /// The position of the namespace in the declaration, from 0.
    pub fn ordinal(&self) -> (n: u8)
        ensures
            n == self.ordinal_of(),
    {
        match self {
            StorageKey::Coordinators => 0,
            StorageKey::Workers => 1,
        }
    }

    /// The prefix of every storage key in the namespace: one byte, the
    /// ordinal.
    pub fn storage_prefix(&self) -> (prefix: Vec<u8>)
        ensures
            prefix@ == seq![self.ordinal_of()],
    {
        let mut prefix: Vec<u8> = Vec::new();
        prefix.push(self.ordinal());
        assert(prefix@ =~= seq![self.ordinal_of()]);
        prefix
    }
}

/// Why the directory refused an operation. A refused operation changes
/// nothing.
#[derive(Clone, Copy, PartialEq, Eq, Structural, Debug)]
pub enum RegistryError {
    /// The caller is not the admin.
    NotAdmin,
    /// The amount is not a decimal number that fits 128 bits.
    InvalidAmount,
    /// Less than the minimum deposit came with the call.
    DepositTooLow,
    /// The name has fewer than 2 or more than 64 bytes.
    BadNameLength,
    /// A coordinator of this name exists.
    NameTaken,
    /// No coordinator has this name.
    CoordinatorNotFound,
    /// The caller is neither the owner of the entry nor the admin.
    NotOwnerOrAdmin,
    /// Every worker number has been handed out.
    WorkerIdsExhausted,
    /// A worker of the generated id exists.
    WorkerIdCollision,
    /// The coordinator to join does not exist or is inactive.
    CoordinatorNotActive,
    /// No worker has this id.
    WorkerNotFound,
}

impl RegistryError {
    /// The reason in words.
    pub open spec fn message_text(self) -> Seq<char> {
        match self {
            RegistryError::NotAdmin => "Only admin can set min deposit"@,
            RegistryError::InvalidAmount => "Invalid yocto amount"@,
            RegistryError::DepositTooLow => "Minimum deposit not attached"@,
            RegistryError::BadNameLength => "Name must be 2-64 characters"@,
            RegistryError::NameTaken => "Coordinator name already taken"@,
            RegistryError::CoordinatorNotFound => "Coordinator not found"@,
            RegistryError::NotOwnerOrAdmin => "Only owner or admin"@,
            RegistryError::WorkerIdsExhausted => "No worker number is left"@,
            RegistryError::WorkerIdCollision => "Worker ID collision"@,
            RegistryError::CoordinatorNotActive => "Coordinator not found or not active"@,
            RegistryError::WorkerNotFound => "Worker not found"@,
        }
    }

    /// The reason in words, for the caller to read.
    pub fn message(&self) -> (out: String)
        ensures
            out@ == self.message_text(),
    {
        match self {
            RegistryError::NotAdmin => "Only admin can set min deposit".to_owned(),
            RegistryError::InvalidAmount => "Invalid yocto amount".to_owned(),
            RegistryError::DepositTooLow => "Minimum deposit not attached".to_owned(),
            RegistryError::BadNameLength => "Name must be 2-64 characters".to_owned(),
            RegistryError::NameTaken => "Coordinator name already taken".to_owned(),
            RegistryError::CoordinatorNotFound => "Coordinator not found".to_owned(),
            RegistryError::NotOwnerOrAdmin => "Only owner or admin".to_owned(),
            RegistryError::WorkerIdsExhausted => "No worker number is left".to_owned(),
            RegistryError::WorkerIdCollision => "Worker ID collision".to_owned(),
            RegistryError::CoordinatorNotActive => "Coordinator not found or not active".to_owned(),
            RegistryError::WorkerNotFound => "Worker not found".to_owned(),
        }
    }
}

/// A coordinator of the platform.
#[derive(Debug)]
pub struct CoordinatorEntry {
    pub coordinator_id: String,
    pub owner: String,
    pub contract_id: Option<String>,
    pub phala_cvm_id: Option<String>,
    pub ensue_configured: bool,
    pub created_at: u64,
    pub active: bool,
}

/// A coordinator entry as contracts speak of it.
pub struct CoordinatorEntryView {
    pub coordinator_id: Seq<char>,
    pub owner: Seq<char>,
    pub contract_id: Option<Seq<char>>,
    pub phala_cvm_id: Option<Seq<char>>,
    pub ensue_configured: bool,
    pub created_at: u64,
    pub active: bool,
}

impl View for CoordinatorEntry {
    type V = CoordinatorEntryView;

    open spec fn view(&self) -> CoordinatorEntryView {
        CoordinatorEntryView {
            coordinator_id: self.coordinator_id@,
            owner: self.owner@,
            contract_id: self.contract_id.deep_view(),
            phala_cvm_id: self.phala_cvm_id.deep_view(),
            ensue_configured: self.ensue_configured,
            created_at: self.created_at,
            active: self.active,
        }
    }
}

impl DeepView for CoordinatorEntry {
    type V = CoordinatorEntryView;

    open spec fn deep_view(&self) -> CoordinatorEntryView {
        self@
    }
}

impl Clone for CoordinatorEntry {
    fn clone(&self) -> (out: Self)
        ensures
            out@ == self@,
    {
        CoordinatorEntry {
            coordinator_id: self.coordinator_id.clone(),
            owner: self.owner.clone(),
            contract_id: clone_optional_text(&self.contract_id),
            phala_cvm_id: clone_optional_text(&self.phala_cvm_id),
            ensue_configured: self.ensue_configured,
            created_at: self.created_at,
            active: self.active,
        }
    }
}

/// A worker agent of the platform.
#[derive(Debug)]
pub struct WorkerEntry {
    pub worker_id: String,
    pub owner: String,
    pub coordinator_id: Option<String>,
    pub phala_cvm_id: Option<String>,
    pub nova_group_id: Option<String>,
    pub created_at: u64,
    pub active: bool,
}

/// A worker entry as contracts speak of it.
pub struct WorkerEntryView {
    pub worker_id: Seq<char>,
    pub owner: Seq<char>,
    pub coordinator_id: Option<Seq<char>>,
    pub phala_cvm_id: Option<Seq<char>>,
    pub nova_group_id: Option<Seq<char>>,
    pub created_at: u64,
    pub active: bool,
}

impl View for WorkerEntry {
    type V = WorkerEntryView;

    open spec fn view(&self) -> WorkerEntryView {
        WorkerEntryView {
            worker_id: self.worker_id@,
            owner: self.owner@,
            coordinator_id: self.coordinator_id.deep_view(),
            phala_cvm_id: self.phala_cvm_id.deep_view(),
            nova_group_id: self.nova_group_id.deep_view(),
            created_at: self.created_at,
            active: self.active,
        }
    }
}

impl DeepView for WorkerEntry {
    type V = WorkerEntryView;

    open spec fn deep_view(&self) -> WorkerEntryView {
        self@
    }
}

impl Clone for WorkerEntry {
    fn clone(&self) -> (out: Self)
        ensures
            out@ == self@,
    {
        WorkerEntry {
            worker_id: self.worker_id.clone(),
            owner: self.owner.clone(),
            coordinator_id: clone_optional_text(&self.coordinator_id),
            phala_cvm_id: clone_optional_text(&self.phala_cvm_id),
            nova_group_id: clone_optional_text(&self.nova_group_id),
            created_at: self.created_at,
            active: self.active,
        }
    }
}

/// How many entries the directory holds, and how many of them are active.
#[derive(Clone, Copy, PartialEq, Eq, Structural, Debug)]
pub struct RegistryStats {
    pub total_coordinators: usize,
    pub active_coordinators: usize,
    pub total_workers: usize,
    pub active_workers: usize,
}

/// The decimal digit of value `d`.
pub open spec fn digit_char(d: int) -> char {
    if d == 0 {
        '0'
    } else if d == 1 {
        '1'
    } else if d == 2 {
        '2'
    } else if d == 3 {
        '3'
    } else if d == 4 {
        '4'
    } else if d == 5 {
        '5'
    } else if d == 6 {
        '6'
    } else if d == 7 {
        '7'
    } else if d == 8 {
        '8'
    } else {
        '9'
    }
}

/// `n` in decimal, without leading zeros.
pub open spec fn decimal_text(n: nat) -> Seq<char>
    decreases n,
{
    if n < 10 {
        seq![digit_char(n as int)]
    } else {
        decimal_text(n / 10).push(digit_char((n % 10) as int))
    }
}

/// The id of the worker that registers as `name` and is given `number`:
/// the name, a hyphen, the number.
pub open spec fn worker_id_for(name: Seq<char>, number: u64) -> Seq<char> {
    name + seq!['-'] + decimal_text(number as nat)
}

/// The coordinators that are active.
pub open spec fn active_coordinators() -> spec_fn(CoordinatorEntryView) -> bool {
    |c: CoordinatorEntryView| c.active
}

/// The workers that are active.
pub open spec fn active_workers() -> spec_fn(WorkerEntryView) -> bool {
    |w: WorkerEntryView| w.active
}

/// The active workers that joined `coordinator_id`.
pub open spec fn active_workers_of(coordinator_id: Seq<char>) -> spec_fn(WorkerEntryView) -> bool {
    |w: WorkerEntryView| w.active && w.coordinator_id == Some(coordinator_id)
}

/// `new` where one is given, else `old`.
pub open spec fn replaced<T>(old: T, new: Option<T>) -> T {
    match new {
        Some(n) => n,
        None => old,
    }
}

/// `new` where one is given, else `old`.
pub open spec fn replaced_optional<T>(old: Option<T>, new: Option<T>) -> Option<T> {
    match new {
        Some(n) => Some(n),
        None => old,
    }
}

/// The whole state of the directory.
pub struct RegistryView {
    pub admin: Seq<char>,
    /// The coordinators, in the order of their registration.
    pub coordinators: Seq<CoordinatorEntryView>,
    /// The workers, in the order of their registration.
    pub workers: Seq<WorkerEntryView>,
    /// The number that was given to the last worker.
    pub next_worker_id: u64,
    pub min_deposit: u128,
}

impl RegistryView {
    /// An empty directory run by `admin`, with the default minimum deposit.
    pub open spec fn empty(admin: Seq<char>) -> RegistryView {
        RegistryView {
            admin,
            coordinators: Seq::empty(),
            workers: Seq::empty(),
            next_worker_id: 0,
            min_deposit: DEFAULT_MIN_DEPOSIT,
        }
    }

    /// The names of the coordinators, in the order of their registration.
    pub open spec fn coordinator_names(self) -> Seq<Seq<char>> {
        self.coordinators.map_values(|c: CoordinatorEntryView| c.coordinator_id)
    }

    /// The ids of the workers, in the order of their registration.
    pub open spec fn worker_ids(self) -> Seq<Seq<char>> {
        self.workers.map_values(|w: WorkerEntryView| w.worker_id)
    }

    /// No name and no worker id occurs twice.
    pub open spec fn valid(self) -> bool {
        &&& self.coordinator_names().no_duplicates()
        &&& self.worker_ids().no_duplicates()
    }

    /// The coordinator registered under `name`, if any.
    pub open spec fn coordinator(self, name: Seq<char>) -> Option<CoordinatorEntryView> {
        match self.coordinator_names().index_of_first(name) {
            Some(i) => Some(self.coordinators[i]),
            None => None,
        }
    }

    /// The worker registered under `worker_id`, if any.
    pub open spec fn worker(self, worker_id: Seq<char>) -> Option<WorkerEntryView> {
        match self.worker_ids().index_of_first(worker_id) {
            Some(i) => Some(self.workers[i]),
            None => None,
        }
    }

    /// The directory with `entry` in place of the coordinator `name`.
    pub open spec fn with_coordinator(self, name: Seq<char>, entry: CoordinatorEntryView) -> RegistryView {
        match self.coordinator_names().index_of_first(name) {
            Some(i) => RegistryView { coordinators: self.coordinators.update(i, entry), ..self },
            None => self,
        }
    }

    /// The directory with `entry` in place of the worker `worker_id`.
    pub open spec fn with_worker(self, worker_id: Seq<char>, entry: WorkerEntryView) -> RegistryView {
        match self.worker_ids().index_of_first(worker_id) {
            Some(i) => RegistryView { workers: self.workers.update(i, entry), ..self },
            None => self,
        }
    }

    /// Why `caller` cannot register under `name` with `deposit`, if so.
    pub open spec fn registration_refusal(self, deposit: u128, name: Seq<char>) -> Option<
        RegistryError,
    > {
        if deposit < self.min_deposit {
            Some(RegistryError::DepositTooLow)
        } else if !(MIN_NAME_BYTES <= crate::model::byte_len(name) <= MAX_NAME_BYTES) {
            Some(RegistryError::BadNameLength)
        } else {
            None
        }
    }

    /// Why no coordinator can register as `name` with `deposit`, if so.
    pub open spec fn coordinator_refusal(self, deposit: u128, name: Seq<char>) -> Option<
        RegistryError,
    > {
        match self.registration_refusal(deposit, name) {
            Some(e) => Some(e),
            None => if self.coordinator(name) is Some {
                Some(RegistryError::NameTaken)
            } else {
                None
            },
        }
    }

    /// Why no worker can register as `name` with `deposit` to join
    /// `coordinator_id`, if so.
    pub open spec fn worker_refusal(
        self,
        deposit: u128,
        name: Seq<char>,
        coordinator_id: Option<Seq<char>>,
    ) -> Option<RegistryError> {
        match self.registration_refusal(deposit, name) {
            Some(e) => Some(e),
            None => if self.next_worker_id == u64::MAX {
                Some(RegistryError::WorkerIdsExhausted)
            } else if self.worker(worker_id_for(name, (self.next_worker_id + 1) as u64)) is Some {
                Some(RegistryError::WorkerIdCollision)
            } else if coordinator_id is Some && !(match self.coordinator(coordinator_id->Some_0) {
                Some(c) => c.active,
                None => false,
            }) {
                Some(RegistryError::CoordinatorNotActive)
            } else {
                None
            },
        }
    }

    /// Why `caller` cannot change the coordinator `name`, if so.
    pub open spec fn coordinator_change_refusal(self, caller: Seq<char>, name: Seq<char>) -> Option<
        RegistryError,
    > {
        match self.coordinator(name) {
            None => Some(RegistryError::CoordinatorNotFound),
            Some(c) => if caller == c.owner || caller == self.admin {
                None
            } else {
                Some(RegistryError::NotOwnerOrAdmin)
            },
        }
    }

    /// Why `caller` cannot change the worker `worker_id`, if so.
    pub open spec fn worker_change_refusal(self, caller: Seq<char>, worker_id: Seq<char>) -> Option<
        RegistryError,
    > {
        match self.worker(worker_id) {
            None => Some(RegistryError::WorkerNotFound),
            Some(w) => if caller == w.owner || caller == self.admin {
                None
            } else {
                Some(RegistryError::NotOwnerOrAdmin)
            },
        }
    }
}

fn digit_text(d: u128) -> (s: &'static str)
    requires
        d < 10,
    ensures
        s@ == seq![digit_char(d as int)],
{
    proof {
        reveal_strlit("0");
        reveal_strlit("1");
        reveal_strlit("2");
        reveal_strlit("3");
        reveal_strlit("4");
        reveal_strlit("5");
        reveal_strlit("6");
        reveal_strlit("7");
        reveal_strlit("8");
        reveal_strlit("9");
    }
    let s = if d == 0 {
        "0"
    } else if d == 1 {
        "1"
    } else if d == 2 {
        "2"
    } else if d == 3 {
        "3"
    } else if d == 4 {
        "4"
    } else if d == 5 {
        "5"
    } else if d == 6 {
        "6"
    } else if d == 7 {
        "7"
    } else if d == 8 {
        "8"
    } else {
        "9"
    };
    assert(s@ =~= seq![digit_char(d as int)]);
    s
}

fn append_decimal(out: &mut String, n: u128)
    ensures
        final(out)@ == old(out)@ + decimal_text(n as nat),
    decreases n,
{
    if n >= 10 {
        append_decimal(out, n / 10);
    }
    out.append(digit_text(n % 10));
    assert(out@ =~= old(out)@ + decimal_text(n as nat));
}

/// The id of the worker that registers as `name` and is given `number`.
pub fn make_worker_id(name: &String, number: u64) -> (id: String)
    ensures
        id@ == worker_id_for(name@, number),
{
    let mut id = name.clone();
    proof {
        reveal_strlit("-");
    }
    id.append("-");
    append_decimal(&mut id, number as u128);
    assert(id@ =~= worker_id_for(name@, number));
    id
}

/// Writes an amount in decimal.
pub fn amount_text(amount: u128) -> (text: String)
    ensures
        text@ == decimal_text(amount as nat),
{
    let mut text = String::new();
    append_decimal(&mut text, amount);
    assert(text@ =~= decimal_text(amount as nat));
    text
}

/// The value of an ASCII digit; 0 for a byte below `0`.
pub open spec fn digit_of(byte: u8) -> nat {
    if byte >= 48 {
        (byte - 48) as nat
    } else {
        0
    }
}

/// The number that a run of ASCII digits writes in decimal.
pub open spec fn digits_value(digits: Seq<u8>) -> nat
    decreases digits.len(),
{
    if digits.len() == 0 {
        0
    } else {
        digits_value(digits.drop_last()) * 10 + digit_of(digits.last())
    }
}

/// Whether every byte is one of the ASCII digits `0` to `9`.
pub open spec fn all_digits(bytes: Seq<u8>) -> bool {
    forall|i: int| 0 <= i < bytes.len() ==> 48 <= #[trigger] bytes[i] <= 57
}

/// What is left of `bytes` without one leading `+`.
pub open spec fn unsigned_part(bytes: Seq<u8>) -> Seq<u8> {
    if bytes.len() > 0 && bytes[0] == 43 {
        bytes.skip(1)
    } else {
        bytes
    }
}

/// The amount that `text` writes: an optional `+` and then one or more
/// decimal digits and nothing else, of a value that fits 128 bits.
pub open spec fn parse_amount(text: Seq<char>) -> Option<u128> {
    let digits = unsigned_part(vstd::utf8::encode_utf8(text));
    if digits.len() > 0 && all_digits(digits) && digits_value(digits) <= u128::MAX {
        Some(digits_value(digits) as u128)
    } else {
        None
    }
}

/// A run of digits writes at least what any of its beginnings writes.
pub proof fn lemma_digits_value_grows(digits: Seq<u8>, k: int)
    requires
        0 <= k <= digits.len(),
    ensures
        digits_value(digits.take(k)) <= digits_value(digits),
    decreases digits.len(),
{
    if k == digits.len() {
        assert(digits.take(k) =~= digits);
    } else {
        lemma_digits_value_grows(digits.drop_last(), k);
        assert(digits.drop_last().take(k) =~= digits.take(k));
    }
}

/// The decimal text of a number is made of ASCII digits, at least one.
pub proof fn lemma_decimal_text_is_digits(n: nat)
    ensures
        decimal_text(n).len() >= 1,
        forall|i: int|
            0 <= i < decimal_text(n).len() ==> '0' <= #[trigger] decimal_text(n)[i] <= '9',
    decreases n,
{
    if n >= 10 {
        lemma_decimal_text_is_digits(n / 10);
    }
}

/// What was written in decimal is read back as the same amount.
pub proof fn lemma_amount_text_reads_back(amount: u128)
    ensures
        parse_amount(decimal_text(amount as nat)) == Some(amount),
{
    lemma_decimal_bytes_value(amount as nat);
}

/// The UTF-8 bytes of the decimal text of `n` are digits that write `n`,
/// without a sign.
pub proof fn lemma_decimal_bytes_value(n: nat)
    ensures
        unsigned_part(vstd::utf8::encode_utf8(decimal_text(n))) == vstd::utf8::encode_utf8(
            decimal_text(n),
        ),
        vstd::utf8::encode_utf8(decimal_text(n)).len() == decimal_text(n).len(),
        all_digits(vstd::utf8::encode_utf8(decimal_text(n))),
        digits_value(vstd::utf8::encode_utf8(decimal_text(n))) == n,
    decreases n,
{
    let text = decimal_text(n);
    let bytes = vstd::utf8::encode_utf8(text);
    lemma_decimal_text_is_digits(n);
    assert(vstd::utf8::is_ascii_chars(text));
    vstd::utf8::is_ascii_chars_encode_utf8(text);
    assert forall|i: int| 0 <= i < bytes.len() implies 48 <= #[trigger] bytes[i] <= 57 by {
        assert('0' <= text[i] <= '9');
        assert(text[i] as u8 == bytes[i]);
    }
    if n < 10 {
        assert(text[0] == digit_char(n as int));
        assert(bytes[0] == text[0] as u8);
        assert(bytes.drop_last().len() == 0);
        assert(digits_value(bytes.drop_last()) == 0);
        assert(digit_of(bytes.last()) == n);
    } else {
        let shorter = decimal_text(n / 10);
        let fewer = vstd::utf8::encode_utf8(shorter);
        lemma_decimal_bytes_value(n / 10);
        lemma_decimal_text_is_digits(n / 10);
        assert(vstd::utf8::is_ascii_chars(shorter));
        vstd::utf8::is_ascii_chars_encode_utf8(shorter);
        assert(text.drop_last() =~= shorter);
        assert forall|i: int| 0 <= i < fewer.len() implies bytes.drop_last()[i] == fewer[i] by {
            assert(text[i] == shorter[i]);
            assert(text[i] as u8 == bytes[i]);
            assert(shorter[i] as u8 == fewer[i]);
        }
        assert(bytes.drop_last() =~= fewer);
        assert(text.last() == digit_char((n % 10) as int));
        assert(bytes.last() == text.last() as u8);
        assert(digit_of(bytes.last()) == n % 10);
    }
}

/// Reads an amount: an optional `+` and then decimal digits.
pub fn parse_yocto(text: &str) -> (amount: Option<u128>)
    ensures
        amount == parse_amount(text@),
{
    let bytes = text.as_bytes();
    let start: usize = if bytes.len() > 0 && bytes[0] == 43 {
        1
    } else {
        0
    };
    let ghost digits = unsigned_part(bytes@);
    assert(digits =~= bytes@.skip(start as int));
    if start == bytes.len() {
        return None;
    }
    let mut value: u128 = 0;
    let mut i: usize = start;
    assert(digits.take(0) =~= Seq::<u8>::empty());
    while i < bytes.len()
        invariant
            start <= i <= bytes.len(),
            digits == bytes@.skip(start as int),
            digits == unsigned_part(vstd::utf8::encode_utf8(text@)),
            all_digits(digits.take(i - start)),
            value == digits_value(digits.take(i - start)),
        decreases bytes.len() - i,
    {
        let byte = bytes[i];
        if byte < 48 || byte > 57 {
            assert(digits[i - start] == byte);
            assert(!all_digits(digits));
            return None;
        }
        let digit: u128 = (byte - 48) as u128;
        let ghost seen = digits.take(i - start);
        let ghost more = digits.take(i - start + 1);
        proof {
            assert(more.drop_last() =~= seen);
            assert(more.last() == byte);
            assert(digits_value(more) == digits_value(seen) * 10 + digit);
        }
        if value > (u128::MAX - digit) / 10 {
            proof {
                assert(value * 10 + digit > u128::MAX);
                lemma_digits_value_grows(digits, i - start + 1);
                assert(digits_value(digits) > u128::MAX);
            }
            return None;
        }
        value = value * 10 + digit;
        proof {
            assert forall|j: int| 0 <= j < more.len() implies 48 <= #[trigger] more[j] <= 57 by {
                if j < seen.len() {
                    assert(seen[j] == more[j]);
                }
            }
        }
        i += 1;
    }
    assert(digits.take(i - start) =~= digits);
    Some(value)
}

/// The directory of one deployment.
#[derive(Debug)]
pub struct RegistryContract {
    pub admin: String,
    pub coordinators: Vec<CoordinatorEntry>,
    pub workers: Vec<WorkerEntry>,
    pub next_worker_id: u64,
    pub min_deposit: u128,
}

impl View for RegistryContract {
    type V = RegistryView;

    open spec fn view(&self) -> RegistryView {
        RegistryView {
            admin: self.admin@,
            coordinators: self.coordinators.deep_view(),
            workers: self.workers.deep_view(),
            next_worker_id: self.next_worker_id,
            min_deposit: self.min_deposit,
        }
    }
}

impl RegistryContract {
    /// The directory's invariant holds.
    pub open spec fn wf(&self) -> bool {
        self@.valid()
    }

    /// An empty directory run by `admin`, with the default minimum deposit.
    pub fn new(admin: String) -> (out: Self)
        ensures
            out@ == RegistryView::empty(admin@),
            out.wf(),
    {
        let out = RegistryContract {
            admin,
            coordinators: Vec::new(),
            workers: Vec::new(),
            next_worker_id: 0,
            min_deposit: DEFAULT_MIN_DEPOSIT,
        };
        assert(out@.coordinators =~= Seq::empty());
        assert(out@.workers =~= Seq::empty());
        assert(out@.coordinator_names() =~= Seq::empty());
        assert(out@.worker_ids() =~= Seq::empty());
        out
    }

    /// An empty directory run by `admin`, as `new` makes it.
    pub fn migrate(admin: String) -> (out: Self)
        ensures
            out@ == RegistryView::empty(admin@),
            out.wf(),
    {
        RegistryContract::new(admin)
    }

    fn find_coordinator(&self, name: &String) -> (found: Option<usize>)
        ensures
            position(found) == self@.coordinator_names().index_of_first(name@),
            found is Some ==> found->Some_0 < self.coordinators.len(),
    {
        assert(keys_of(self.coordinators@) =~= self@.coordinator_names());
        find_first(&self.coordinators, name)
    }

    fn find_worker(&self, worker_id: &String) -> (found: Option<usize>)
        ensures
            position(found) == self@.worker_ids().index_of_first(worker_id@),
            found is Some ==> found->Some_0 < self.workers.len(),
    {
        assert(keys_of(self.workers@) =~= self@.worker_ids());
        find_first(&self.workers, worker_id)
    }

    /// Sets the deposit that registration asks for, written in decimal as
    /// a number of yoctoNEAR. Only the admin may.
    pub fn set_min_deposit(&mut self, caller: String, amount_yocto: String) -> (r: Result<
        (),
        RegistryError,
    >)
        ensures
            match r {
                Ok(()) => {
                    &&& caller@ == old(self)@.admin
                    &&& parse_amount(amount_yocto@) is Some
                    &&& final(self)@ == (RegistryView {
                        min_deposit: parse_amount(amount_yocto@)->Some_0,
                        ..old(self)@
                    })
                },
                Err(e) => {
                    &&& final(self)@ == old(self)@
                    &&& caller@ != old(self)@.admin ==> e == RegistryError::NotAdmin
                    &&& caller@ == old(self)@.admin ==> e == RegistryError::InvalidAmount
                        && parse_amount(amount_yocto@) is None
                },
            },
    {
        if caller != self.admin {
            return Err(RegistryError::NotAdmin);
        }
        match parse_yocto(amount_yocto.as_str()) {
            Some(amount) => {
                self.min_deposit = amount;
                Ok(())
            },
            None => Err(RegistryError::InvalidAmount),
        }
    }

    /// The deposit that registration asks for, written in decimal as a
    /// number of yoctoNEAR.
    pub fn get_min_deposit(&self) -> (amount: String)
        ensures
            amount@ == decimal_text(self@.min_deposit as nat),
    {
        amount_text(self.min_deposit)
    }

    /// Registers the caller's coordinator under `name`, which must have 2 to
    /// 64 bytes and be free, given at least the minimum deposit. Returns the
    /// new entry.
    pub fn register_coordinator(&mut self, caller: String, now: u64, deposit: u128, name: String) -> (r:
        Result<CoordinatorEntry, RegistryError>)
        requires
            old(self).wf(),
        ensures
            final(self).wf(),
            match r {
                Ok(entry) => {
                    &&& old(self)@.coordinator_refusal(deposit, name@) is None
                    &&& entry@ == (CoordinatorEntryView {
                        coordinator_id: name@,
                        owner: caller@,
                        contract_id: None,
                        phala_cvm_id: None,
                        ensue_configured: false,
                        created_at: now,
                        active: true,
                    })
                    &&& final(self)@ == (RegistryView {
                        coordinators: old(self)@.coordinators.push(entry@),
                        ..old(self)@
                    })
                },
                Err(e) => {
                    &&& old(self)@.coordinator_refusal(deposit, name@) == Some(e)
                    &&& final(self)@ == old(self)@
                },
            },
    {
        if deposit < self.min_deposit {
            return Err(RegistryError::DepositTooLow);
        }
        let len = name.as_str().as_bytes().len();
        if len < MIN_NAME_BYTES || len > MAX_NAME_BYTES {
            return Err(RegistryError::BadNameLength);
        }
        if self.find_coordinator(&name).is_some() {
            return Err(RegistryError::NameTaken);
        }
        let ghost before = self@;
        let entry = CoordinatorEntry {
            coordinator_id: name,
            owner: caller,
            contract_id: None,
            phala_cvm_id: None,
            ensue_configured: false,
            created_at: now,
            active: true,
        };
        let out = entry.clone();
        self.coordinators.push(entry);
        proof {
            before.coordinator_names().index_of_first_ensures(name@);
            assert(self@.coordinators =~= before.coordinators.push(entry@));
            assert(self@.coordinator_names() =~= before.coordinator_names().push(name@));
            lemma_push_unique(before.coordinator_names(), name@);
        }
        Ok(out)
    }

    /// Changes the deployment details of a coordinator; what is not given
    /// stays. Only the owner of the entry and the admin may.
    pub fn update_coordinator(
        &mut self,
        caller: String,
        name: String,
        contract_id: Option<String>,
        phala_cvm_id: Option<String>,
        ensue_configured: Option<bool>,
    ) -> (r: Result<(), RegistryError>)
        requires
            old(self).wf(),
        ensures
            final(self).wf(),
            match r {
                Ok(()) => {
                    &&& old(self)@.coordinator_change_refusal(caller@, name@) is None
                    &&& final(self)@ == old(self)@.with_coordinator(
                        name@,
                        CoordinatorEntryView {
                            contract_id: replaced_optional(
                                old(self)@.coordinator(name@)->Some_0.contract_id,
                                contract_id.deep_view(),
                            ),
                            phala_cvm_id: replaced_optional(
                                old(self)@.coordinator(name@)->Some_0.phala_cvm_id,
                                phala_cvm_id.deep_view(),
                            ),
                            ensue_configured: replaced(
                                old(self)@.coordinator(name@)->Some_0.ensue_configured,
                                ensue_configured,
                            ),
                            ..old(self)@.coordinator(name@)->Some_0
                        },
                    )
                },
                Err(e) => {
                    &&& old(self)@.coordinator_change_refusal(caller@, name@) == Some(e)
                    &&& final(self)@ == old(self)@
                },
            },
    {
        let i = match self.find_coordinator(&name) {
            Some(i) => i,
            None => {
                return Err(RegistryError::CoordinatorNotFound);
            },
        };
        if caller != self.coordinators[i].owner && caller != self.admin {
            return Err(RegistryError::NotOwnerOrAdmin);
        }
        let ghost before = self@;
        let ghost entry = before.coordinators[i as int];
        if let Some(cid) = contract_id {
            self.coordinators[i].contract_id = Some(cid);
        }
        if let Some(pid) = phala_cvm_id {
            self.coordinators[i].phala_cvm_id = Some(pid);
        }
        if let Some(ec) = ensue_configured {
            self.coordinators[i].ensue_configured = ec;
        }
        proof {
            before.coordinator_names().index_of_first_ensures(name@);
            let changed = CoordinatorEntryView {
                contract_id: replaced_optional(entry.contract_id, contract_id.deep_view()),
                phala_cvm_id: replaced_optional(entry.phala_cvm_id, phala_cvm_id.deep_view()),
                ensue_configured: replaced(entry.ensue_configured, ensue_configured),
                ..entry
            };
            assert(self@.coordinators =~= before.coordinators.update(i as int, changed));
            assert(self@.coordinator_names() =~= before.coordinator_names());
            assert(self@.workers =~= before.workers);
        }
        Ok(())
    }

    /// Deactivates a coordinator. Only the owner of the entry and the admin
    /// may.
    pub fn deactivate_coordinator(&mut self, caller: String, name: String) -> (r: Result<
        (),
        RegistryError,
    >)
        requires
            old(self).wf(),
        ensures
            final(self).wf(),
            match r {
                Ok(()) => {
                    &&& old(self)@.coordinator_change_refusal(caller@, name@) is None
                    &&& final(self)@ == old(self)@.with_coordinator(
                        name@,
                        CoordinatorEntryView {
                            active: false,
                            ..old(self)@.coordinator(name@)->Some_0
                        },
                    )
                },
                Err(e) => {
                    &&& old(self)@.coordinator_change_refusal(caller@, name@) == Some(e)
                    &&& final(self)@ == old(self)@
                },
            },
    {
        let i = match self.find_coordinator(&name) {
            Some(i) => i,
            None => {
                return Err(RegistryError::CoordinatorNotFound);
            },
        };
        if caller != self.coordinators[i].owner && caller != self.admin {
            return Err(RegistryError::NotOwnerOrAdmin);
        }
        let ghost before = self@;
        self.coordinators[i].active = false;
        proof {
            before.coordinator_names().index_of_first_ensures(name@);
            assert(self@.coordinators =~= before.coordinators.update(
                i as int,
                CoordinatorEntryView { active: false, ..before.coordinators[i as int] },
            ));
            assert(self@.coordinator_names() =~= before.coordinator_names());
            assert(self@.workers =~= before.workers);
        }
        Ok(())
    }

    /// Registers a worker of the caller. Its id is `name`, a hyphen and the
    /// next worker number. A coordinator to join must exist and be active.
    /// Returns the new entry.
    pub fn register_worker(
        &mut self,
        caller: String,
        now: u64,
        deposit: u128,
        name: String,
        coordinator_id: Option<String>,
    ) -> (r: Result<WorkerEntry, RegistryError>)
        requires
            old(self).wf(),
        ensures
            final(self).wf(),
            match r {
                Ok(entry) => {
                    &&& old(self)@.worker_refusal(deposit, name@, coordinator_id.deep_view())
                        is None
                    &&& entry@ == (WorkerEntryView {
                        worker_id: worker_id_for(name@, (old(self)@.next_worker_id + 1) as u64),
                        owner: caller@,
                        coordinator_id: coordinator_id.deep_view(),
                        phala_cvm_id: None,
                        nova_group_id: None,
                        created_at: now,
                        active: true,
                    })
                    &&& final(self)@ == (RegistryView {
                        workers: old(self)@.workers.push(entry@),
                        next_worker_id: (old(self)@.next_worker_id + 1) as u64,
                        ..old(self)@
                    })
                },
                Err(e) => {
                    &&& old(self)@.worker_refusal(deposit, name@, coordinator_id.deep_view())
                        == Some(e)
                    &&& final(self)@ == old(self)@
                },
            },
    {
        if deposit < self.min_deposit {
            return Err(RegistryError::DepositTooLow);
        }
        let len = name.as_str().as_bytes().len();
        if len < MIN_NAME_BYTES || len > MAX_NAME_BYTES {
            return Err(RegistryError::BadNameLength);
        }
        if self.next_worker_id == u64::MAX {
            return Err(RegistryError::WorkerIdsExhausted);
        }
        let number = self.next_worker_id + 1;
        let worker_id = make_worker_id(&name, number);
        if self.find_worker(&worker_id).is_some() {
            return Err(RegistryError::WorkerIdCollision);
        }
        if let Some(cid) = &coordinator_id {
            let joinable = match self.find_coordinator(cid) {
                Some(i) => self.coordinators[i].active,
                None => false,
            };
            if !joinable {
                return Err(RegistryError::CoordinatorNotActive);
            }
        }
        let ghost before = self@;
        let entry = WorkerEntry {
            worker_id,
            owner: caller,
            coordinator_id,
            phala_cvm_id: None,
            nova_group_id: None,
            created_at: now,
            active: true,
        };
        let out = entry.clone();
        self.next_worker_id = number;
        self.workers.push(entry);
        proof {
            before.worker_ids().index_of_first_ensures(entry@.worker_id);
            assert(self@.workers =~= before.workers.push(entry@));
            assert(self@.worker_ids() =~= before.worker_ids().push(entry@.worker_id));
            lemma_push_unique(before.worker_ids(), entry@.worker_id);
        }
        Ok(out)
    }

    /// Changes the deployment details of a worker; what is not given stays.
    /// Only the owner of the entry and the admin may.
    pub fn update_worker(
        &mut self,
        caller: String,
        worker_id: String,
        phala_cvm_id: Option<String>,
        nova_group_id: Option<String>,
        coordinator_id: Option<String>,
    ) -> (r: Result<(), RegistryError>)
        requires
            old(self).wf(),
        ensures
            final(self).wf(),
            match r {
                Ok(()) => {
                    &&& old(self)@.worker_change_refusal(caller@, worker_id@) is None
                    &&& final(self)@ == old(self)@.with_worker(
                        worker_id@,
                        WorkerEntryView {
                            phala_cvm_id: replaced_optional(
                                old(self)@.worker(worker_id@)->Some_0.phala_cvm_id,
                                phala_cvm_id.deep_view(),
                            ),
                            nova_group_id: replaced_optional(
                                old(self)@.worker(worker_id@)->Some_0.nova_group_id,
                                nova_group_id.deep_view(),
                            ),
                            coordinator_id: replaced_optional(
                                old(self)@.worker(worker_id@)->Some_0.coordinator_id,
                                coordinator_id.deep_view(),
                            ),
                            ..old(self)@.worker(worker_id@)->Some_0
                        },
                    )
                },
                Err(e) => {
                    &&& old(self)@.worker_change_refusal(caller@, worker_id@) == Some(e)
                    &&& final(self)@ == old(self)@
                },
            },
    {
        let i = match self.find_worker(&worker_id) {
            Some(i) => i,
            None => {
                return Err(RegistryError::WorkerNotFound);
            },
        };
        if caller != self.workers[i].owner && caller != self.admin {
            return Err(RegistryError::NotOwnerOrAdmin);
        }
        let ghost before = self@;
        let ghost entry = before.workers[i as int];
        if let Some(pid) = phala_cvm_id {
            self.workers[i].phala_cvm_id = Some(pid);
        }
        if let Some(ngid) = nova_group_id {
            self.workers[i].nova_group_id = Some(ngid);
        }
        if let Some(cid) = coordinator_id {
            self.workers[i].coordinator_id = Some(cid);
        }
        proof {
            before.worker_ids().index_of_first_ensures(worker_id@);
            let changed = WorkerEntryView {
                phala_cvm_id: replaced_optional(entry.phala_cvm_id, phala_cvm_id.deep_view()),
                nova_group_id: replaced_optional(entry.nova_group_id, nova_group_id.deep_view()),
                coordinator_id: replaced_optional(entry.coordinator_id, coordinator_id.deep_view()),
                ..entry
            };
            assert(self@.workers =~= before.workers.update(i as int, changed));
            assert(self@.worker_ids() =~= before.worker_ids());
            assert(self@.coordinators =~= before.coordinators);
        }
        Ok(())
    }

    /// Deactivates a worker. Only the owner of the entry and the admin may.
    pub fn deactivate_worker(&mut self, caller: String, worker_id: String) -> (r: Result<
        (),
        RegistryError,
    >)
        requires
            old(self).wf(),
        ensures
            final(self).wf(),
            match r {
                Ok(()) => {
                    &&& old(self)@.worker_change_refusal(caller@, worker_id@) is None
                    &&& final(self)@ == old(self)@.with_worker(
                        worker_id@,
                        WorkerEntryView { active: false, ..old(self)@.worker(worker_id@)->Some_0 },
                    )
                },
                Err(e) => {
                    &&& old(self)@.worker_change_refusal(caller@, worker_id@) == Some(e)
                    &&& final(self)@ == old(self)@
                },
            },
    {
        let i = match self.find_worker(&worker_id) {
            Some(i) => i,
            None => {
                return Err(RegistryError::WorkerNotFound);
            },
        };
        if caller != self.workers[i].owner && caller != self.admin {
            return Err(RegistryError::NotOwnerOrAdmin);
        }
        let ghost before = self@;
        self.workers[i].active = false;
        proof {
            before.worker_ids().index_of_first_ensures(worker_id@);
            assert(self@.workers =~= before.workers.update(
                i as int,
                WorkerEntryView { active: false, ..before.workers[i as int] },
            ));
            assert(self@.worker_ids() =~= before.worker_ids());
            assert(self@.coordinators =~= before.coordinators);
        }
        Ok(())
    }

    /// The coordinator registered under `name`, if any.
    pub fn get_coordinator(&self, name: String) -> (out: Option<CoordinatorEntry>)
        ensures
            out.deep_view() == self@.coordinator(name@),
    {
        match self.find_coordinator(&name) {
            Some(i) => Some(self.coordinators[i].clone()),
            None => None,
        }
    }

    fn collect_coordinators(&self, active_only: bool) -> (out: Vec<CoordinatorEntry>)
        ensures
            out.deep_view() == (if active_only {
                self@.coordinators.filter(active_coordinators())
            } else {
                self@.coordinators
            }),
    {
        let mut out: Vec<CoordinatorEntry> = Vec::new();
        let mut i: usize = 0;
        let ghost wanted = |c: CoordinatorEntryView| !active_only || c.active;
        proof {
            assert(self@.coordinators.take(0) =~= Seq::empty());
            reveal(Seq::filter);
            assert(out.deep_view() =~= Seq::empty());
        }
        while i < self.coordinators.len()
            invariant
                i <= self.coordinators.len(),
                wanted == (|c: CoordinatorEntryView| !active_only || c.active),
                out.deep_view() == self@.coordinators.take(i as int).filter(wanted),
            decreases self.coordinators.len() - i,
        {
            let ghost seen = self@.coordinators.take(i as int);
            let ghost shown = out.deep_view();
            if !active_only || self.coordinators[i].active {
                out.push(self.coordinators[i].clone());
            }
            proof {
                let item = self@.coordinators[i as int];
                assert(self@.coordinators.take(i + 1) =~= seen.push(item));
                seen.lemma_filter_push(item, wanted);
                if wanted(item) {
                    assert(out.deep_view() =~= shown.push(item));
                }
            }
            i += 1;
        }
        proof {
            assert(self@.coordinators.take(i as int) =~= self@.coordinators);
            lemma_filter_same(self@.coordinators, wanted, active_coordinators(), active_only);
        }
        out
    }

    fn collect_workers(&self, active_only: bool, of: &Option<String>) -> (out: Vec<WorkerEntry>)
        requires
            of is Some ==> active_only,
        ensures
            out.deep_view() == (match of {
                Some(c) => self@.workers.filter(active_workers_of(c@)),
                None => if active_only {
                    self@.workers.filter(active_workers())
                } else {
                    self@.workers
                },
            }),
    {
        let mut out: Vec<WorkerEntry> = Vec::new();
        let mut i: usize = 0;
        let ghost joined = of.deep_view();
        let ghost wanted = |w: WorkerEntryView|
            (!active_only || w.active) && (joined is None || w.coordinator_id == joined);
        proof {
            assert(self@.workers.take(0) =~= Seq::empty());
            reveal(Seq::filter);
            assert(out.deep_view() =~= Seq::empty());
        }
        while i < self.workers.len()
            invariant
                i <= self.workers.len(),
                joined == of.deep_view(),
                wanted == (|w: WorkerEntryView|
                    (!active_only || w.active) && (joined is None || w.coordinator_id == joined)),
                out.deep_view() == self@.workers.take(i as int).filter(wanted),
            decreases self.workers.len() - i,
        {
            let ghost seen = self@.workers.take(i as int);
            let ghost shown = out.deep_view();
            let state_fits = !active_only || self.workers[i].active;
            let coordinator_fits = match of {
                None => true,
                Some(c) => match &self.workers[i].coordinator_id {
                    Some(mine) => *mine == *c,
                    None => false,
                },
            };
            if state_fits && coordinator_fits {
                out.push(self.workers[i].clone());
            }
            proof {
                let item = self@.workers[i as int];
                assert(self@.workers.take(i + 1) =~= seen.push(item));
                seen.lemma_filter_push(item, wanted);
                assert(wanted(item) == (state_fits && coordinator_fits));
                if wanted(item) {
                    assert(out.deep_view() =~= shown.push(item));
                }
            }
            i += 1;
        }
        proof {
            assert(self@.workers.take(i as int) =~= self@.workers);
            match of {
                Some(c) => {
                    lemma_filter_same(self@.workers, wanted, active_workers_of(c@), true);
                },
                None => {
                    lemma_filter_same(self@.workers, wanted, active_workers(), active_only);
                },
            }
        }
        out
    }

    /// Every coordinator, in the order of registration.
    pub fn list_coordinators(&self) -> (out: Vec<CoordinatorEntry>)
        ensures
            out.deep_view() == self@.coordinators,
    {
        self.collect_coordinators(false)
    }

    /// The active coordinators, in the order of registration.
    pub fn list_active_coordinators(&self) -> (out: Vec<CoordinatorEntry>)
        ensures
            out.deep_view() == self@.coordinators.filter(active_coordinators()),
    {
        self.collect_coordinators(true)
    }

    /// The worker registered under `worker_id`, if any.
    pub fn get_worker(&self, worker_id: String) -> (out: Option<WorkerEntry>)
        ensures
            out.deep_view() == self@.worker(worker_id@),
    {
        match self.find_worker(&worker_id) {
            Some(i) => Some(self.workers[i].clone()),
            None => None,
        }
    }

    /// Every worker, in the order of registration.
    pub fn list_workers(&self) -> (out: Vec<WorkerEntry>)
        ensures
            out.deep_view() == self@.workers,
    {
        self.collect_workers(false, &None)
    }

    /// The active workers, in the order of registration.
    pub fn list_active_workers(&self) -> (out: Vec<WorkerEntry>)
        ensures
            out.deep_view() == self@.workers.filter(active_workers()),
    {
        self.collect_workers(true, &None)
    }

    /// The active workers that joined `coordinator_id`, in the order of
    /// registration.
    pub fn list_workers_by_coordinator(&self, coordinator_id: String) -> (out: Vec<WorkerEntry>)
        ensures
            out.deep_view() == self@.workers.filter(active_workers_of(coordinator_id@)),
    {
        self.collect_workers(true, &Some(coordinator_id))
    }

    /// The admin.
    pub fn get_admin(&self) -> (out: String)
        ensures
            out@ == self@.admin,
    {
        self.admin.clone()
    }

    /// How many coordinators and workers there are, and how many of each are
    /// active.
    pub fn get_stats(&self) -> (stats: RegistryStats)
        ensures
            stats.total_coordinators == self@.coordinators.len(),
            stats.active_coordinators == self@.coordinators.filter(active_coordinators()).len(),
            stats.total_workers == self@.workers.len(),
            stats.active_workers == self@.workers.filter(active_workers()).len(),
    {
        let coordinators = self.list_active_coordinators();
        let workers = self.list_active_workers();
        RegistryStats {
            total_coordinators: self.coordinators.len(),
            active_coordinators: coordinators.len(),
            total_workers: self.workers.len(),
            active_workers: workers.len(),
        }
    }
}

/// Filters that agree on every item keep the same items; one that lets
/// everything through keeps them all.
pub proof fn lemma_filter_same<A>(
    items: Seq<A>,
    used: spec_fn(A) -> bool,
    stated: spec_fn(A) -> bool,
    selective: bool,
)
    requires
        selective ==> forall|a: A| #[trigger] used(a) == stated(a),
        !selective ==> forall|a: A| #[trigger] used(a),
    ensures
        selective ==> items.filter(used) == items.filter(stated),
        !selective ==> items.filter(used) == items,
    decreases items.len(),
{
    reveal(Seq::filter);
    if items.len() > 0 {
        lemma_filter_same(items.drop_last(), used, stated, selective);
        if !selective {
            assert(items.drop_last().push(items.last()) =~= items);
        }
    }
}

} // verus!
