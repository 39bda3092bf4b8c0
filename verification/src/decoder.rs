//! The event decoder: turns the named parameters of one matched swap log
//! into a trade record. The two pool deltas arrive as raw unsigned 256-bit
//! words; the numerically larger one is judged to be the negative
//! (outflow) leg and its magnitude is recovered by twos-complement
//! correction, the other is taken as-is. Which field won fixes the token
//! decimals that the caller scales by and the direction label.

use vstd::prelude::*;

use crate::logs::{copy_bytes, opt_bytes_view};
use crate::u256::{pow_256, twos_complement, u256_gt, U256, U257};

verus! {

/// One named parameter decoded from a matched log.
#[derive(Debug)]
pub struct LogParam {
    pub name: String,
    pub value: ParamValue,
}

/// The decoded kind of a parameter: an address, a 256-bit word, or some
/// kind the decoder does not read.
#[derive(Debug)]
pub enum ParamValue {
    Address(Vec<u8>),
    Uint(U256),
    Other,
}

/// The mathematical value of a decoded parameter.
pub ghost enum ParamValueView {
    Address(Seq<u8>),
    Uint(U256),
    Other,
}

impl View for ParamValue {
    type V = ParamValueView;

    open spec fn view(&self) -> ParamValueView {
        match self {
            ParamValue::Address(a) => ParamValueView::Address(a@),
            ParamValue::Uint(u) => ParamValueView::Uint(*u),
            ParamValue::Other => ParamValueView::Other,
        }
    }
}

/// The mathematical value of a named parameter.
#[verifier::ext_equal]
pub ghost struct LogParamView {
    pub name: Seq<char>,
    pub value: ParamValueView,
}

impl View for LogParam {
    type V = LogParamView;

    open spec fn view(&self) -> LogParamView {
        LogParamView { name: self.name@, value: self.value@ }
    }
}

/// The views of a parameter list.
pub open spec fn param_seq_view(s: Seq<LogParam>) -> Seq<LogParamView> {
    s.map_values(|p: LogParam| p@)
}

/// A fatal decode failure: the named parameter is missing from the log or
/// has the wrong decoded kind. No partial record is ever produced.
#[derive(Clone, Copy, PartialEq, Eq, Structural, Debug)]
pub enum DecodeError {
    Sender,
    Recipient,
    Amount0,
    Amount1,
}

/// One signed pool delta of the record: the recovered magnitude and
/// whether the leg was judged negative (an outflow). The magnitude of a
/// negative leg is `2^256 - raw`, which reaches `2^256` itself when the
/// raw word is zero; hence the carried width.
#[derive(Clone, Copy, PartialEq, Eq, Structural, Debug)]
pub struct TokenAmount {
    pub negative: bool,
    pub magnitude: U257,
}

/// The mathematical value of a signed pool delta.
#[verifier::ext_equal]
pub ghost struct TokenAmountView {
    pub negative: bool,
    pub magnitude: int,
}

impl View for TokenAmount {
    type V = TokenAmountView;

    open spec fn view(&self) -> TokenAmountView {
        TokenAmountView { negative: self.negative, magnitude: self.magnitude.as_nat() }
    }
}

/// A decoded trade record. The `dai` leg is the `amount0` field of the
/// event and is denominated in 18 decimals, the `usdc` leg is `amount1`
/// in 6 decimals; scaling to human units is the output sink's concern.
#[derive(Debug, PartialEq, Eq)]
pub struct Output {
    pub sender: Vec<u8>,
    pub recipient: Vec<u8>,
    pub dai: TokenAmount,
    pub usdc: TokenAmount,
    pub direction: String,
}

/// The mathematical value of a trade record.
#[verifier::ext_equal]
pub ghost struct OutputView {
    pub sender: Seq<u8>,
    pub recipient: Seq<u8>,
    pub dai: TokenAmountView,
    pub usdc: TokenAmountView,
    pub direction: Seq<char>,
}

impl View for Output {
    type V = OutputView;

    open spec fn view(&self) -> OutputView {
        OutputView {
            sender: self.sender@,
            recipient: self.recipient@,
            dai: self.dai@,
            usdc: self.usdc@,
            direction: self.direction@,
        }
    }
}

impl Default for Output {
    /// An empty record: no addresses, zero non-negative amounts, no label.
    fn default() -> (r: Output)
        ensures
            r@ == empty_output(),
    {
        Output {
            sender: Vec::new(),
            recipient: Vec::new(),
            dai: TokenAmount { negative: false, magnitude: U257::from_word(U256::zero()) },
            usdc: TokenAmount { negative: false, magnitude: U257::from_word(U256::zero()) },
            direction: String::new(),
        }
    }
}

/// The value of a freshly created, still empty record.
pub open spec fn empty_output() -> OutputView {
    OutputView {
        sender: Seq::empty(),
        recipient: Seq::empty(),
        dai: TokenAmountView { negative: false, magnitude: 0 },
        usdc: TokenAmountView { negative: false, magnitude: 0 },
        direction: Seq::empty(),
    }
}

impl Output {
    /// Creates an empty record.
    pub fn new() -> (r: Output)
        ensures
            r@ == empty_output(),
    {
        Output::default()
    }
}

/// The magnitude of the negative leg: the twos-complement correction
/// `2^256 - raw`, for every raw word including zero.
pub open spec fn complement_nat(raw: int) -> int {
    pow_256() - raw
}

/// What the four named parameters have accumulated to while scanning a
/// parameter list.
#[verifier::ext_equal]
pub ghost struct ScanState {
    pub sender: Option<Seq<u8>>,
    pub recipient: Option<Seq<u8>>,
    pub amount0: Option<U256>,
    pub amount1: Option<U256>,
}

/// The scan before any parameter is read.
pub open spec fn scan_init() -> ScanState {
    ScanState { sender: None, recipient: None, amount0: None, amount1: None }
}

/// Scans a parameter list in order, a later occurrence of a name
/// overwriting an earlier one; a parameter bearing one of the four names
/// with the wrong decoded kind is a fatal decode failure at once.
pub open spec fn scan_params(st: ScanState, params: Seq<LogParamView>) -> Result<
    ScanState,
    DecodeError,
>
    decreases params.len(),
{
    if params.len() == 0 {
        Ok(st)
    } else {
        let p = params[0];
        let rest = params.drop_first();
        if p.name == "sender"@ {
            match p.value {
                ParamValueView::Address(a) => scan_params(
                    ScanState { sender: Some(a), ..st },
                    rest,
                ),
                _ => Err(DecodeError::Sender),
            }
        } else if p.name == "recipient"@ {
            match p.value {
                ParamValueView::Address(a) => scan_params(
                    ScanState { recipient: Some(a), ..st },
                    rest,
                ),
                _ => Err(DecodeError::Recipient),
            }
        } else if p.name == "amount0"@ {
            match p.value {
                ParamValueView::Uint(u) => scan_params(ScanState { amount0: Some(u), ..st }, rest),
                _ => Err(DecodeError::Amount0),
            }
        } else if p.name == "amount1"@ {
            match p.value {
                ParamValueView::Uint(u) => scan_params(ScanState { amount1: Some(u), ..st }, rest),
                _ => Err(DecodeError::Amount1),
            }
        } else {
            scan_params(st, rest)
        }
    }
}

/// The record built from the four decoded parameters: the larger raw
/// amount is the negative leg with its magnitude recovered by
/// twos-complement correction, the other is taken as-is, and the
/// direction reads the negative token as the destination of the flow.
pub open spec fn build_output(
    sender: Seq<u8>,
    recipient: Seq<u8>,
    amount0: U256,
    amount1: U256,
) -> OutputView {
    if amount0.as_nat() > amount1.as_nat() {
        OutputView {
            sender,
            recipient,
            dai: TokenAmountView { negative: true, magnitude: complement_nat(amount0.as_nat()) },
            usdc: TokenAmountView { negative: false, magnitude: amount1.as_nat() },
            direction: "USDC -> DAI"@,
        }
    } else {
        OutputView {
            sender,
            recipient,
            dai: TokenAmountView { negative: false, magnitude: amount0.as_nat() },
            usdc: TokenAmountView { negative: true, magnitude: complement_nat(amount1.as_nat()) },
            direction: "DAI -> USDC"@,
        }
    }
}

/// What the decoder returns for a parameter list: the record, or the
/// first failure — a wrong-kind failure where the scan hit one, else the
/// first of the four names that never occurred, in the order sender,
/// recipient, amount0, amount1.
pub open spec fn decode_spec(params: Seq<LogParamView>) -> Result<OutputView, DecodeError> {
    match scan_params(scan_init(), params) {
        Err(e) => Err(e),
        Ok(st) => {
            if st.sender is None {
                Err(DecodeError::Sender)
            } else if st.recipient is None {
                Err(DecodeError::Recipient)
            } else if st.amount0 is None {
                Err(DecodeError::Amount0)
            } else if st.amount1 is None {
                Err(DecodeError::Amount1)
            } else {
                Ok(
                    build_output(
                        st.sender.unwrap(),
                        st.recipient.unwrap(),
                        st.amount0.unwrap(),
                        st.amount1.unwrap(),
                    ),
                )
            }
        },
    }
}

/// Decodes the named parameters of one matched log into a trade record,
/// or fails on the first missing or mistyped parameter.
pub fn get_output_fields(params: &Vec<LogParam>) -> (r: Result<Output, DecodeError>)
    ensures
        match r {
            Ok(out) => decode_spec(param_seq_view(params@)) == Ok::<OutputView, DecodeError>(out@),
            Err(e) => decode_spec(param_seq_view(params@)) == Err::<OutputView, DecodeError>(e),
        },
{
    let sender_name: String = "sender".to_owned();
    let recipient_name: String = "recipient".to_owned();
    let amount0_name: String = "amount0".to_owned();
    let amount1_name: String = "amount1".to_owned();

    let mut sender: Option<Vec<u8>> = None;
    let mut recipient: Option<Vec<u8>> = None;
    let mut amount0: Option<U256> = None;
    let mut amount1: Option<U256> = None;

    let ghost all = param_seq_view(params@);
    proof {
        assert(all.skip(0) =~= all);
    }
    let mut i: usize = 0;
    while i < params.len()
        invariant
            i <= params@.len(),
            all == param_seq_view(params@),
            sender_name@ == "sender"@,
            recipient_name@ == "recipient"@,
            amount0_name@ == "amount0"@,
            amount1_name@ == "amount1"@,
            scan_params(scan_init(), all) == scan_params(
                ScanState {
                    sender: opt_bytes_view(sender),
                    recipient: opt_bytes_view(recipient),
                    amount0,
                    amount1,
                },
                all.skip(i as int),
            ),
        decreases params@.len() - i,
    {
        let ghost st = ScanState {
            sender: opt_bytes_view(sender),
            recipient: opt_bytes_view(recipient),
            amount0,
            amount1,
        };
        proof {
            assert(all.skip(i as int)[0] == all[i as int]);
            assert(all.skip(i as int).drop_first() =~= all.skip(i + 1));
        }
        let p = &params[i];
        if p.name.eq(&sender_name) {
            match &p.value {
                ParamValue::Address(a) => {
                    sender = Some(copy_bytes(a));
                },
                _ => {
                    return Err(DecodeError::Sender);
                },
            }
        } else if p.name.eq(&recipient_name) {
            match &p.value {
                ParamValue::Address(a) => {
                    recipient = Some(copy_bytes(a));
                },
                _ => {
                    return Err(DecodeError::Recipient);
                },
            }
        } else if p.name.eq(&amount0_name) {
            match &p.value {
                ParamValue::Uint(u) => {
                    amount0 = Some(*u);
                },
                _ => {
                    return Err(DecodeError::Amount0);
                },
            }
        } else if p.name.eq(&amount1_name) {
            match &p.value {
                ParamValue::Uint(u) => {
                    amount1 = Some(*u);
                },
                _ => {
                    return Err(DecodeError::Amount1);
                },
            }
        }
        i += 1;
    }
    proof {
        assert(all.skip(all.len() as int) =~= Seq::<LogParamView>::empty());
    }
    let sender = match sender {
        Some(s) => s,
        None => {
            return Err(DecodeError::Sender);
        },
    };
    let recipient = match recipient {
        Some(rc) => rc,
        None => {
            return Err(DecodeError::Recipient);
        },
    };
    let amount0 = match amount0 {
        Some(a) => a,
        None => {
            return Err(DecodeError::Amount0);
        },
    };
    let amount1 = match amount1 {
        Some(a) => a,
        None => {
            return Err(DecodeError::Amount1);
        },
    };

    let out: Output;
    if u256_gt(&amount0, &amount1) {
        out = Output {
            sender,
            recipient,
            dai: TokenAmount { negative: true, magnitude: twos_complement(&amount0) },
            usdc: TokenAmount { negative: false, magnitude: U257::from_word(amount1) },
            direction: "USDC -> DAI".to_owned(),
        };
    } else {
        out = Output {
            sender,
            recipient,
            dai: TokenAmount { negative: false, magnitude: U257::from_word(amount0) },
            usdc: TokenAmount { negative: true, magnitude: twos_complement(&amount1) },
            direction: "DAI -> USDC".to_owned(),
        };
    }
    proof {
        assert(out@ =~= build_output(out.sender@, out.recipient@, amount0, amount1));
    }
    Ok(out)
}

} // verus!
