//! An automated teller machine as a state machine.
//!
//! The machine gives out cash after a card is swiped and the right pin is
//! keyed in. Swiping the card tells the machine the digest of the pin that
//! must be keyed in next; keys are collected in a register until `Enter`
//! checks them, first as a pin, then as a withdrawal amount. A withdrawal is
//! bounded only by the cash in the machine.

use vstd::prelude::*;

use crate::hashing::DIGEST_OFFSET;
use crate::hashing::mix;
use crate::hashing::mix_word;

verus! {

/// The keys on the ATM keypad.
#[derive(Clone, Copy, PartialEq, Eq, Hash, Debug)]
pub enum Key {
    One,
    Two,
    Three,
    Four,
    Enter,
}

/// Something one can do to the ATM.
#[derive(Clone, Copy, PartialEq, Eq, Debug)]
pub enum Action {
    /// Swipe a card at the ATM. The value is the digest of the pin that
    /// should be keyed in on the keypad next.
    SwipeCard(u64),
    /// Press a key on the keypad.
    PressKey(Key),
}

/// The authentication states the ATM can be in.
#[derive(Clone, Copy, PartialEq, Eq, Debug)]
pub enum Auth {
    /// No session has begun yet; waiting for a card swipe.
    Waiting,
    /// A card was swiped, providing the enclosed pin digest; waiting for the
    /// pin to be keyed in.
    Authenticating(u64),
    /// The pin was correct; waiting for the amount of cash to withdraw.
    Authenticated,
}

/// The ATM. When a card is swiped, the machine learns the correct pin's
/// digest and waits for the pin on the keypad: any number of numeric keys
/// followed by `Enter`. A wrong pin returns the machine to the main menu; a
/// correct one lets the next keyed-in number withdraw that much cash, if the
/// machine holds enough.
#[derive(Clone, PartialEq, Eq, Debug)]
pub struct Atm {
    /// How much money is in the ATM.
    pub cash_inside: u64,
    /// The machine's authentication status.
    pub expected_pin_hash: Auth,
    /// All the keys pressed since the last `Enter`.
    pub keystroke_register: Vec<Key>,
}

/// The word a key contributes to the digest of a key sequence.
pub open spec fn key_code(k: Key) -> u64 {
    match k {
        Key::One => 1,
        Key::Two => 2,
        Key::Three => 3,
        Key::Four => 4,
        Key::Enter => 5,
    }
}

/// Digest of a sequence of keys: each key's code mixed into the word digest
/// accumulator, left to right.
pub open spec fn keys_digest(keys: Seq<Key>) -> u64
    decreases keys.len(),
{
    if keys.len() == 0 {
        DIGEST_OFFSET
    } else {
        mix(keys_digest(keys.drop_last()), key_code(keys.last()))
    }
}

/// The decimal digit a key contributes to a keyed-in number; `Enter` is no
/// digit and contributes nothing.
pub open spec fn key_digit(k: Key) -> u64 {
    match k {
        Key::One => 1,
        Key::Two => 2,
        Key::Three => 3,
        Key::Four => 4,
        Key::Enter => 0,
    }
}

/// The number a sequence of keys spells in decimal, each key appending its
/// digit, truncated modulo `2^64`.
pub open spec fn keys_amount(keys: Seq<Key>) -> u64
    decreases keys.len(),
{
    if keys.len() == 0 {
        0
    } else {
        ((keys_amount(keys.drop_last()) as u128 * 10 + key_digit(keys.last()) as u128)
            % 0x1_0000_0000_0000_0000) as u64
    }
}

/// Computes the digest of the keys pressed so far.
pub fn hash_keys(keys: &Vec<Key>) -> (r: u64)
    ensures
        r == keys_digest(keys@),
{
    let mut acc: u64 = DIGEST_OFFSET;
    let mut i: usize = 0;
    while i < keys.len()
        invariant
            i <= keys@.len(),
            acc == keys_digest(keys@.take(i as int)),
        decreases keys@.len() - i,
    {
        let code: u64 = match keys[i] {
            Key::One => 1,
            Key::Two => 2,
            Key::Three => 3,
            Key::Four => 4,
            Key::Enter => 5,
        };
        acc = mix_word(acc, code);
        i = i + 1;
        proof {
            assert(keys@.take(i as int).drop_last() =~= keys@.take(i as int - 1));
        }
    }
    proof {
        assert(keys@.take(keys@.len() as int) =~= keys@);
    }
    acc
}

/// True iff the keyed-in keys digest to the expected pin digest.
pub fn verify_pin(keys: &Vec<Key>, expected_pin_hash: u64) -> (ok: bool)
    ensures
        ok == (keys_digest(keys@) == expected_pin_hash),
{
    let pin_hash = hash_keys(keys);
    pin_hash == expected_pin_hash
}

/// The number the keyed-in keys spell in decimal.
pub fn keys_to_amount(keys: &Vec<Key>) -> (amount: u64)
    ensures
        amount == keys_amount(keys@),
{
    let mut amount: u64 = 0;
    let mut i: usize = 0;
    while i < keys.len()
        invariant
            i <= keys@.len(),
            amount == keys_amount(keys@.take(i as int)),
        decreases keys@.len() - i,
    {
        let digit: u64 = match keys[i] {
            Key::One => 1,
            Key::Two => 2,
            Key::Three => 3,
            Key::Four => 4,
            Key::Enter => 0,
        };
        let wide: u128 = (amount as u128) * 10 + (digit as u128);
        amount = (wide % 0x1_0000_0000_0000_0000u128) as u64;
        i = i + 1;
        proof {
            assert(keys@.take(i as int).drop_last() =~= keys@.take(i as int - 1));
        }
    }
    proof {
        assert(keys@.take(keys@.len() as int) =~= keys@);
    }
    amount
}

/// The authentication status after `t` happens to `s`.
pub open spec fn next_auth(s: Atm, t: Action) -> Auth {
    match t {
        Action::SwipeCard(pin_hash) => match s.expected_pin_hash {
            Auth::Waiting => Auth::Authenticating(pin_hash),
            _ => s.expected_pin_hash,
        },
        Action::PressKey(Key::Enter) => match s.expected_pin_hash {
            Auth::Waiting => Auth::Waiting,
            Auth::Authenticating(pin_hash) => if keys_digest(s.keystroke_register@) == pin_hash {
                Auth::Authenticated
            } else {
                Auth::Waiting
            },
            Auth::Authenticated => Auth::Waiting,
        },
        Action::PressKey(_) => s.expected_pin_hash,
    }
}

/// The cash inside the machine after `t` happens to `s`: it only changes on
/// a successful withdrawal, an `Enter` while authenticated asking for no
/// more than the machine holds.
pub open spec fn next_cash(s: Atm, t: Action) -> u64 {
    match t {
        Action::PressKey(Key::Enter) => match s.expected_pin_hash {
            Auth::Authenticated => if keys_amount(s.keystroke_register@) <= s.cash_inside {
                (s.cash_inside - keys_amount(s.keystroke_register@)) as u64
            } else {
                s.cash_inside
            },
            _ => s.cash_inside,
        },
        _ => s.cash_inside,
    }
}

/// The keystroke register after `t` happens to `s`: a fresh swipe or any
/// `Enter` during a session clears it, and a numeric key during a session is
/// appended; outside a session keys are ignored.
pub open spec fn next_register(s: Atm, t: Action) -> Seq<Key> {
    match t {
        Action::SwipeCard(_) => match s.expected_pin_hash {
            Auth::Waiting => Seq::<Key>::empty(),
            _ => s.keystroke_register@,
        },
        Action::PressKey(Key::Enter) => match s.expected_pin_hash {
            Auth::Waiting => s.keystroke_register@,
            _ => Seq::<Key>::empty(),
        },
        Action::PressKey(k) => match s.expected_pin_hash {
            Auth::Waiting => s.keystroke_register@,
            _ => s.keystroke_register@.push(k),
        },
    }
}

/// A fresh vector holding the same keys.
fn copy_keys(keys: &Vec<Key>) -> (r: Vec<Key>)
    ensures
        r@ == keys@,
{
    let mut r: Vec<Key> = Vec::new();
    let mut i: usize = 0;
    while i < keys.len()
        invariant
            i <= keys@.len(),
            r@ == keys@.take(i as int),
        decreases keys@.len() - i,
    {
        r.push(keys[i]);
        i = i + 1;
        proof {
            assert(keys@.take(i as int).drop_last() =~= keys@.take(i as int - 1));
            assert(keys@.take(i as int) =~= keys@.take(i as int - 1).push(keys@[i as int - 1]));
        }
    }
    proof {
        assert(keys@.take(keys@.len() as int) =~= keys@);
    }
    r
}

impl Atm {
    /// The state after `t` happens in `starting_state`: exactly the cash,
    /// authentication status and keystroke register that [`next_cash`],
    /// [`next_auth`] and [`next_register`] describe.
    pub fn next_state(starting_state: &Atm, t: &Action) -> (end: Atm)
        ensures
            end.cash_inside == next_cash(*starting_state, *t),
            end.expected_pin_hash == next_auth(*starting_state, *t),
            end.keystroke_register@ == next_register(*starting_state, *t),
    {
        match t {
            Action::PressKey(key) => {
                let mut new_state = Atm {
                    cash_inside: starting_state.cash_inside,
                    expected_pin_hash: starting_state.expected_pin_hash,
                    keystroke_register: copy_keys(&starting_state.keystroke_register),
                };
                match key {
                    Key::Enter => {
                        match starting_state.expected_pin_hash {
                            Auth::Authenticating(correct_pin) => {
                                if verify_pin(&new_state.keystroke_register, correct_pin) {
                                    new_state.expected_pin_hash = Auth::Authenticated;
                                    new_state.keystroke_register = Vec::new();
                                } else {
                                    new_state.expected_pin_hash = Auth::Waiting;
                                    new_state.keystroke_register = Vec::new();
                                }
                            },
                            Auth::Authenticated => {
                                let withdraw_amount = keys_to_amount(
                                    &starting_state.keystroke_register,
                                );
                                if withdraw_amount <= new_state.cash_inside {
                                    new_state.cash_inside = new_state.cash_inside
                                        - withdraw_amount;
                                }
                                new_state.keystroke_register = Vec::new();
                                new_state.expected_pin_hash = Auth::Waiting;
                            },
                            Auth::Waiting => {},
                        }
                    },
                    _ => {
                        match starting_state.expected_pin_hash {
                            Auth::Authenticating(_) => {
                                new_state.keystroke_register.push(*key);
                            },
                            Auth::Authenticated => {
                                new_state.keystroke_register.push(*key);
                            },
                            Auth::Waiting => {},
                        }
                    },
                }
                new_state
            },
            Action::SwipeCard(pin_hash) => {
                match starting_state.expected_pin_hash {
                    Auth::Waiting => Atm {
                        expected_pin_hash: Auth::Authenticating(*pin_hash),
                        cash_inside: starting_state.cash_inside,
                        keystroke_register: Vec::new(),
                    },
                    _ => Atm {
                        cash_inside: starting_state.cash_inside,
                        expected_pin_hash: starting_state.expected_pin_hash,
                        keystroke_register: copy_keys(&starting_state.keystroke_register),
                    },
                }
            },
        }
    }
}

} // verus!
