//! The product string of a relay board.
//!
//! A supported board names itself `USBRelay` followed by the number of its
//! relays in decimal, as in `USBRelay4`. The number may carry a `+` sign and
//! leading zeros.

use vstd::prelude::*;
use vstd::string::*;
use crate::bitmap::MAX_RELAYS;
use crate::error::{UsbRelayError, UsbRelayErrorView};
use crate::text::{
    all_digits, decimal_text, decimal_value, is_digit, lemma_decimal_text_value,
    lemma_decimal_value_push,
};

verus! {

/// Number of characters in the prefix `USBRelay`.
pub const PRODUCT_PREFIX_LEN: usize = 8;

/// The prefix that every supported product string begins with.
pub open spec fn product_prefix() -> Seq<char> {
    "USBRelay"@
}

/// `text` without its `+` sign, if it has one.
pub open spec fn without_sign(text: Seq<char>) -> Seq<char> {
    if text.len() > 0 && text[0] == '+' {
        text.drop_first()
    } else {
        text
    }
}

/// Whether `text` is a decimal number: an optional `+`, then at least one
/// digit and nothing else.
pub open spec fn is_decimal(text: Seq<char>) -> bool {
    without_sign(text).len() > 0 && all_digits(without_sign(text))
}

/// What follows the prefix in a product string that has it.
pub open spec fn count_suffix(product: Seq<char>) -> Seq<char> {
    product.skip(PRODUCT_PREFIX_LEN as int)
}

/// The relay count that a product string advertises, or the reason why the
/// product is turned down:
/// `UnsupportedProduct` where the prefix is missing, `Parse` where the rest
/// is no decimal number, and `UnsupportedProduct` again where the number is
/// larger than [`MAX_RELAYS`].
pub open spec fn advertised_relay_count(product: Seq<char>) -> Result<nat, UsbRelayErrorView> {
    if !product_prefix().is_prefix_of(product) {
        Err(UsbRelayErrorView::UnsupportedProduct)
    } else if !is_decimal(count_suffix(product)) {
        Err(UsbRelayErrorView::Parse)
    } else if decimal_value(without_sign(count_suffix(product))) > MAX_RELAYS {
        Err(UsbRelayErrorView::UnsupportedProduct)
    } else {
        Ok(decimal_value(without_sign(count_suffix(product))))
    }
}

/// Whether `product`, which has `len` characters, begins with `USBRelay`.
fn has_product_prefix(product: &str, len: usize) -> (found: bool)
    requires
        len == product@.len(),
    ensures
        found == product_prefix().is_prefix_of(product@),
{
    let prefix = "USBRelay";
    proof {
        reveal_strlit("USBRelay");
    }
    if len < PRODUCT_PREFIX_LEN {
        return false;
    }
    let mut at: usize = 0;
    while at < PRODUCT_PREFIX_LEN
        invariant
            at <= PRODUCT_PREFIX_LEN <= len == product@.len(),
            prefix@ == product_prefix(),
            prefix@.len() == PRODUCT_PREFIX_LEN,
            forall|i: int| 0 <= i < at ==> product@[i] == prefix@[i],
        decreases PRODUCT_PREFIX_LEN - at,
    {
        if product.get_char(at) != prefix.get_char(at) {
            return false;
        }
        at = at + 1;
    }
    proof {
        assert(product@.subrange(0, PRODUCT_PREFIX_LEN as int) == prefix@);
    }
    true
}

/// Reads the relay count out of a product string.
///
/// The count is returned as it is written, whatever the number of its
/// digits; a count above [`MAX_RELAYS`] is turned down, however large.
pub fn relay_count(product: &str) -> (count: Result<usize, UsbRelayError>)
    ensures
        match count {
            Ok(n) => advertised_relay_count(product@) == Ok::<nat, UsbRelayErrorView>(n as nat),
            Err(e) => advertised_relay_count(product@) == Err::<nat, UsbRelayErrorView>(e@),
        },
        count matches Ok(n) ==> n <= MAX_RELAYS,
{
    let len = product.unicode_len();
    if !has_product_prefix(product, len) {
        return Err(UsbRelayError::UnsupportedProduct);
    }
    let ghost suffix = count_suffix(product@);
    let mut start: usize = PRODUCT_PREFIX_LEN;
    if start < len && product.get_char(start) == '+' {
        start = start + 1;
    }
    let ghost digits = without_sign(suffix);
    proof {
        reveal_strlit("USBRelay");
        assert(suffix.len() == len - PRODUCT_PREFIX_LEN);
        if suffix.len() > 0 {
            assert(suffix[0] == product@[PRODUCT_PREFIX_LEN as int]);
        }
        assert(digits == product@.subrange(start as int, len as int));
    }
    if start == len {
        return Err(UsbRelayError::Parse);
    }
    // `value` follows the digits read so far up to MAX_RELAYS; one above
    // stands for every larger number.
    let mut value: usize = 0;
    let mut at: usize = start;
    while at < len
        invariant
            start <= at <= len == product@.len(),
            product_prefix().is_prefix_of(product@),
            digits == without_sign(count_suffix(product@)),
            digits == product@.subrange(start as int, len as int),
            all_digits(digits.take(at - start)),
            value <= MAX_RELAYS + 1,
            value <= MAX_RELAYS ==> value == decimal_value(digits.take(at - start)),
            value > MAX_RELAYS ==> decimal_value(digits.take(at - start)) > MAX_RELAYS,
        decreases len - at,
    {
        let c = product.get_char(at);
        proof {
            assert(digits[at - start] == c);
            assert(digits.take(at - start + 1) == digits.take(at - start).push(c));
            lemma_decimal_value_push(digits.take(at - start), c);
        }
        if !(c >= '0' && c <= '9') {
            assert(!is_digit(digits[at - start]));
            return Err(UsbRelayError::Parse);
        }
        let digit: usize = (c as u32 - '0' as u32) as usize;
        value = 10 * value + digit;
        if value > MAX_RELAYS {
            value = MAX_RELAYS + 1;
        }
        at = at + 1;
    }
    proof {
        assert(digits.take(at - start) == digits);
    }
    if value > MAX_RELAYS {
        Err(UsbRelayError::UnsupportedProduct)
    } else {
        Ok(value)
    }
}

/// The product string made of the prefix and a count written in decimal
/// advertises that count where it is at most [`MAX_RELAYS`], and is
/// unsupported where it is larger.
pub proof fn lemma_count_of_product_name(count: nat)
    ensures
        advertised_relay_count(product_prefix() + decimal_text(count)) == if count <= MAX_RELAYS {
            Ok::<nat, UsbRelayErrorView>(count)
        } else {
            Err::<nat, UsbRelayErrorView>(UsbRelayErrorView::UnsupportedProduct)
        },
{
    reveal_strlit("USBRelay");
    let text = decimal_text(count);
    let product = product_prefix() + text;
    lemma_decimal_text_value(count);
    assert(product.subrange(0, product_prefix().len() as int) == product_prefix());
    assert(count_suffix(product) == text);
    assert(is_digit(text[0]));
    assert(without_sign(text) == text);
}

} // verus!
