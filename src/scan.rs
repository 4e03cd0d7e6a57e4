use vstd::prelude::*;

use crate::ledger::{
    transactions_model, transitions_model, Ledger, TransactionModel, TransitionModel, Transaction,
    Transition,
};
use crate::network::Network;
use crate::types::{Address, Field, GraphKey, Output, PlaintextRecord, PrivateKey, ViewKey};

verus! {

/// Which output records a scan yields, by spend status.
#[derive(Clone, Copy, Debug, PartialEq, Eq, Structural)]
pub enum OutputRecordsFilter {
    /// Every owned record.
    All,
    /// Owned records whose serial number is recorded as spent.
    AllSpent(PrivateKey),
    /// Owned records whose serial number is not recorded as spent.
    AllUnspent(PrivateKey),
    /// Owned records whose tag is recorded as spent.
    Spent(GraphKey),
    /// Owned records whose tag is not recorded as spent.
    Unspent(GraphKey),
}

/// The serial number of the record with `commitment` under `private_key`, if the
/// derivation succeeds:
/// `h = HashToGroup(d, commitment)`, `gamma = h * sk_sig`,
/// `nonce = HashToScalar(d, x(cofactor * gamma))`, `Commit((d, commitment), nonce)`.
pub open spec fn serial_number_spec<N: Network>(
    private_key: PrivateKey,
    commitment: Field,
) -> Option<Field> {
    let d = N::serial_number_domain_spec();
    match N::hash_to_group_psd2_spec(d, commitment) {
        None => None,
        Some(h) => {
            let gamma = N::scalar_mul_spec(h, private_key.sk_sig);
            match N::hash_to_scalar_psd2_spec(d, N::mul_by_cofactor_spec(gamma).x) {
                None => None,
                Some(nonce) => N::commit_bhp512_spec(d, commitment, nonce),
            }
        },
    }
}

/// The tag of the record with `commitment` under `graph_key`, if the hash succeeds:
/// `Hash(x(sk_tag), commitment)`.
pub open spec fn tag_spec<N: Network>(graph_key: GraphKey, commitment: Field) -> Option<Field> {
    N::hash_psd2_spec(graph_key.sk_tag.x, commitment)
}

/// Derives the serial number of the record with `commitment` under `private_key`.
pub fn serial_number<N: Network>(private_key: &PrivateKey, commitment: Field) -> (r: Option<Field>)
    ensures
        r == serial_number_spec::<N>(*private_key, commitment),
{
    let d = N::serial_number_domain();
    let h = match N::hash_to_group_psd2(d, commitment) {
        Some(h) => h,
        None => return None,
    };
    let gamma = N::scalar_mul(h, private_key.sk_sig());
    let nonce = match N::hash_to_scalar_psd2(d, N::mul_by_cofactor(gamma).to_x_coordinate()) {
        Some(nonce) => nonce,
        None => return None,
    };
    N::commit_bhp512(d, commitment, nonce)
}

/// Derives the tag of the record with `commitment` under `graph_key`.
pub fn tag<N: Network>(graph_key: &GraphKey, commitment: Field) -> (r: Option<Field>)
    ensures
        r == tag_spec::<N>(*graph_key, commitment),
{
    N::hash_psd2(graph_key.sk_tag().to_x_coordinate(), commitment)
}

/// Whether `s` holds `x`.
fn contains_field(s: &Vec<Field>, x: &Field) -> (r: bool)
    ensures
        r == s@.contains(*x),
{
    let mut i: usize = 0;
    while i < s.len()
        invariant
            i <= s@.len(),
            forall|j: int| 0 <= j < i ==> s@[j] != *x,
        decreases s@.len() - i,
    {
        if s[i] == *x {
            assert(s@[i as int] == *x);
            return true;
        }
        i = i + 1;
    }
    false
}

impl Ledger {
    /// Whether the spend index records `serial_number` as spent.
    pub fn contains_serial_number(&self, serial_number: &Field) -> (r: bool)
        ensures
            r == self.serial_numbers@.contains(*serial_number),
    {
        contains_field(&self.serial_numbers, serial_number)
    }

    /// Whether the spend index records `tag` as spent.
    pub fn contains_tag(&self, tag: &Field) -> (r: bool)
        ensures
            r == self.tags@.contains(*tag),
    {
        contains_field(&self.tags, tag)
    }

    /// Whether the record with `commitment` passes the spend classification of
    /// `filter`. A failed derivation excludes the record.
    pub open spec fn keeps<N: Network>(
        &self,
        filter: OutputRecordsFilter,
        commitment: Field,
    ) -> bool {
        match filter {
            OutputRecordsFilter::All => true,
            OutputRecordsFilter::AllSpent(k) => match serial_number_spec::<N>(k, commitment) {
                Some(sn) => self.serial_numbers@.contains(sn),
                None => false,
            },
            OutputRecordsFilter::AllUnspent(k) => match serial_number_spec::<N>(k, commitment) {
                Some(sn) => !self.serial_numbers@.contains(sn),
                None => false,
            },
            OutputRecordsFilter::Spent(g) => match tag_spec::<N>(g, commitment) {
                Some(t) => self.tags@.contains(t),
                None => false,
            },
            OutputRecordsFilter::Unspent(g) => match tag_spec::<N>(g, commitment) {
                Some(t) => !self.tags@.contains(t),
                None => false,
            },
        }
    }

    /// What the scan yields for one output: its commitment and decryption, if it
    /// passes the classification, is owned by the view key's address, and decrypts.
    pub open spec fn select<N: Network>(
        &self,
        view_key: ViewKey,
        filter: OutputRecordsFilter,
        output: Output,
    ) -> Seq<(Field, PlaintextRecord)> {
        if self.keeps::<N>(filter, output.commitment) && N::is_owner_spec(
            output.record,
            N::to_address_spec(view_key),
            view_key,
        ) {
            match N::decrypt_spec(output.record, view_key) {
                Some(p) => seq![(output.commitment, p)],
                None => seq![],
            }
        } else {
            seq![]
        }
    }

    /// What the scan yields for a sequence of outputs, in order.
    pub open spec fn records_in_outputs<N: Network>(
        &self,
        view_key: ViewKey,
        filter: OutputRecordsFilter,
        s: Seq<Output>,
    ) -> Seq<(Field, PlaintextRecord)>
        decreases s.len(),
    {
        if s.len() == 0 {
            seq![]
        } else {
            self.records_in_outputs::<N>(view_key, filter, s.drop_last()) + self.select::<N>(
                view_key,
                filter,
                s.last(),
            )
        }
    }

    /// What the scan yields for a sequence of transitions, in order.
    pub open spec fn records_in_transitions<N: Network>(
        &self,
        view_key: ViewKey,
        filter: OutputRecordsFilter,
        s: Seq<TransitionModel>,
    ) -> Seq<(Field, PlaintextRecord)>
        decreases s.len(),
    {
        if s.len() == 0 {
            seq![]
        } else {
            self.records_in_transitions::<N>(view_key, filter, s.drop_last())
                + self.records_in_outputs::<N>(view_key, filter, s.last().1)
        }
    }

    /// What the scan yields for a sequence of transactions, in order.
    pub open spec fn records_in_transactions<N: Network>(
        &self,
        view_key: ViewKey,
        filter: OutputRecordsFilter,
        s: Seq<TransactionModel>,
    ) -> Seq<(Field, PlaintextRecord)>
        decreases s.len(),
    {
        if s.len() == 0 {
            seq![]
        } else {
            self.records_in_transactions::<N>(view_key, filter, s.drop_last())
                + self.records_in_transitions::<N>(view_key, filter, s.last().1)
        }
    }

    /// What the scan yields for the blocks below `end`, in order of height; a
    /// height without transactions contributes nothing.
    pub open spec fn records_below<N: Network>(
        &self,
        view_key: ViewKey,
        filter: OutputRecordsFilter,
        end: nat,
    ) -> Seq<(Field, PlaintextRecord)>
        decreases end,
    {
        if end == 0 {
            seq![]
        } else {
            let h = (end - 1) as nat;
            self.records_below::<N>(view_key, filter, h) + if self.transactions@.contains_key(
                h as u32,
            ) {
                self.records_in_transactions::<N>(view_key, filter, self.transactions@[h as u32]@)
            } else {
                seq![]
            }
        }
    }

    /// What `get_output_records` yields: the selected records of every block from
    /// the genesis block up to the tip.
    pub open spec fn output_records_spec<N: Network>(
        &self,
        view_key: ViewKey,
        filter: OutputRecordsFilter,
    ) -> Seq<(Field, PlaintextRecord)> {
        self.records_below::<N>(view_key, filter, self.current_height as nat + 1)
    }

    /// Whether the record with `commitment` passes the spend classification of `filter`.
    fn classify<N: Network>(&self, filter: &OutputRecordsFilter, commitment: Field) -> (r: bool)
        ensures
            r == self.keeps::<N>(*filter, commitment),
    {
        match filter {
            OutputRecordsFilter::All => true,
            OutputRecordsFilter::AllSpent(k) => match serial_number::<N>(k, commitment) {
                Some(sn) => self.contains_serial_number(&sn),
                None => false,
            },
            OutputRecordsFilter::AllUnspent(k) => match serial_number::<N>(k, commitment) {
                Some(sn) => !self.contains_serial_number(&sn),
                None => false,
            },
            OutputRecordsFilter::Spent(g) => match tag::<N>(g, commitment) {
                Some(t) => self.contains_tag(&t),
                None => false,
            },
            OutputRecordsFilter::Unspent(g) => match tag::<N>(g, commitment) {
                Some(t) => !self.contains_tag(&t),
                None => false,
            },
        }
    }

    /// Appends what the scan yields for `outputs` to `result`.
    fn scan_outputs<N: Network>(
        &self,
        view_key: &ViewKey,
        address: &Address,
        filter: &OutputRecordsFilter,
        outputs: &Vec<Output>,
        result: &mut Vec<(Field, PlaintextRecord)>,
    )
        requires
            *address == N::to_address_spec(*view_key),
        ensures
            final(result)@ == old(result)@ + self.records_in_outputs::<N>(
                *view_key,
                *filter,
                outputs@,
            ),
    {
        let ghost start = result@;
        let mut i: usize = 0;
        while i < outputs.len()
            invariant
                i <= outputs@.len(),
                *address == N::to_address_spec(*view_key),
                result@ == start + self.records_in_outputs::<N>(
                    *view_key,
                    *filter,
                    outputs@.subrange(0, i as int),
                ),
            decreases outputs@.len() - i,
        {
            let output = outputs[i];
            if self.classify::<N>(filter, output.commitment) && N::is_owner(
                &output.record,
                address,
                view_key,
            ) {
                match N::decrypt(&output.record, view_key) {
                    Some(p) => result.push((output.commitment, p)),
                    None => {},
                }
            }
            assert(outputs@.subrange(0, i + 1).drop_last() =~= outputs@.subrange(0, i as int));
            i = i + 1;
            assert(result@ =~= start + self.records_in_outputs::<N>(
                *view_key,
                *filter,
                outputs@.subrange(0, i as int),
            ));
        }
        assert(outputs@.subrange(0, i as int) =~= outputs@);
    }
    /// Appends what the scan yields for `transitions` to `result`.
    fn scan_transitions<N: Network>(
        &self,
        view_key: &ViewKey,
        address: &Address,
        filter: &OutputRecordsFilter,
        transitions: &Vec<Transition>,
        result: &mut Vec<(Field, PlaintextRecord)>,
    )
        requires
            *address == N::to_address_spec(*view_key),
        ensures
            final(result)@ == old(result)@ + self.records_in_transitions::<N>(
                *view_key,
                *filter,
                transitions_model(transitions@),
            ),
    {
        let ghost start = result@;
        let ghost model = transitions_model(transitions@);
        let mut i: usize = 0;
        while i < transitions.len()
            invariant
                i <= transitions@.len(),
                model == transitions_model(transitions@),
                *address == N::to_address_spec(*view_key),
                result@ == start + self.records_in_transitions::<N>(
                    *view_key,
                    *filter,
                    model.subrange(0, i as int),
                ),
            decreases transitions@.len() - i,
        {
            self.scan_outputs::<N>(view_key, address, filter, &transitions[i].outputs, result);
            assert(model.subrange(0, i + 1).drop_last() =~= model.subrange(0, i as int));
            assert(model[i as int].1 == transitions@[i as int].outputs@);
            i = i + 1;
            assert(result@ =~= start + self.records_in_transitions::<N>(
                *view_key,
                *filter,
                model.subrange(0, i as int),
            ));
        }
        assert(model.subrange(0, i as int) =~= model);
    }

    /// Appends what the scan yields for `transactions` to `result`.
    fn scan_transactions<N: Network>(
        &self,
        view_key: &ViewKey,
        address: &Address,
        filter: &OutputRecordsFilter,
        transactions: &Vec<Transaction>,
        result: &mut Vec<(Field, PlaintextRecord)>,
    )
        requires
            *address == N::to_address_spec(*view_key),
        ensures
            final(result)@ == old(result)@ + self.records_in_transactions::<N>(
                *view_key,
                *filter,
                transactions_model(transactions@),
            ),
    {
        let ghost start = result@;
        let ghost model = transactions_model(transactions@);
        let mut i: usize = 0;
        while i < transactions.len()
            invariant
                i <= transactions@.len(),
                model == transactions_model(transactions@),
                *address == N::to_address_spec(*view_key),
                result@ == start + self.records_in_transactions::<N>(
                    *view_key,
                    *filter,
                    model.subrange(0, i as int),
                ),
            decreases transactions@.len() - i,
        {
            self.scan_transitions::<N>(
                view_key,
                address,
                filter,
                &transactions[i].transitions,
                result,
            );
            assert(model.subrange(0, i + 1).drop_last() =~= model.subrange(0, i as int));
            assert(model[i as int].1 == transitions_model(transactions@[i as int].transitions@));
            i = i + 1;
            assert(result@ =~= start + self.records_in_transactions::<N>(
                *view_key,
                *filter,
                model.subrange(0, i as int),
            ));
        }
        assert(model.subrange(0, i as int) =~= model);
    }

    /// Returns the output records of the whole ledger history that belong to
    /// `view_key` and pass `filter`, each with its commitment, in storage order
    /// (by height, then transaction, transition and output). A record whose
    /// identifier cannot be derived, that the view key's address does not own, or
    /// that does not decrypt is left out. Each call rescans the history.
    pub fn get_output_records<N: Network>(
        &self,
        view_key: &ViewKey,
        filter: OutputRecordsFilter,
    ) -> (r: Vec<(Field, PlaintextRecord)>)
        ensures
            r@ == self.output_records_spec::<N>(*view_key, filter),
    {
        let address = N::to_address(view_key);
        let mut result: Vec<(Field, PlaintextRecord)> = Vec::new();
        let end: u64 = self.current_height as u64 + 1;
        let mut h: u64 = 0;
        while h < end
            invariant
                h <= end,
                end == self.current_height as nat + 1,
                address == N::to_address_spec(*view_key),
                result@ == self.records_below::<N>(*view_key, filter, h as nat),
            decreases end - h,
        {
            match self.transactions.get(&(h as u32)) {
                Some(transactions) => {
                    self.scan_transactions::<N>(
                        view_key,
                        &address,
                        &filter,
                        &transactions.transactions,
                        &mut result,
                    );
                },
                None => {},
            }
            h = h + 1;
            assert(result@ =~= self.records_below::<N>(*view_key, filter, h as nat));
        }
        result
    }
}

/// The outputs of a sequence of transitions, in order.
pub open spec fn outputs_of_transitions(s: Seq<TransitionModel>) -> Seq<Output>
    decreases s.len(),
{
    if s.len() == 0 {
        seq![]
    } else {
        outputs_of_transitions(s.drop_last()) + s.last().1
    }
}

/// The outputs of a sequence of transactions, in order.
pub open spec fn outputs_of_transactions(s: Seq<TransactionModel>) -> Seq<Output>
    decreases s.len(),
{
    if s.len() == 0 {
        seq![]
    } else {
        outputs_of_transactions(s.drop_last()) + outputs_of_transitions(s.last().1)
    }
}

impl Ledger {
    /// The outputs of the blocks below `end`, in order of height.
    pub open spec fn outputs_below(&self, end: nat) -> Seq<Output>
        decreases end,
    {
        if end == 0 {
            seq![]
        } else {
            let h = (end - 1) as nat;
            self.outputs_below(h) + if self.transactions@.contains_key(h as u32) {
                outputs_of_transactions(self.transactions@[h as u32]@)
            } else {
                seq![]
            }
        }
    }

    /// Every output of the ledger history up to the tip, in storage order.
    pub open spec fn history(&self) -> Seq<Output> {
        self.outputs_below(self.current_height as nat + 1)
    }

    /// Whether the scan under `filter` takes `output` with plaintext `p`: it passes
    /// the classification, the view key's address owns it, and it decrypts to `p`.
    pub open spec fn takes<N: Network>(
        &self,
        view_key: ViewKey,
        filter: OutputRecordsFilter,
        output: Output,
        p: PlaintextRecord,
    ) -> bool {
        &&& self.keeps::<N>(filter, output.commitment)
        &&& N::is_owner_spec(output.record, N::to_address_spec(view_key), view_key)
        &&& N::decrypt_spec(output.record, view_key) == Some(p)
    }

    proof fn lemma_records_concat<N: Network>(
        &self,
        view_key: ViewKey,
        filter: OutputRecordsFilter,
        a: Seq<Output>,
        b: Seq<Output>,
    )
        ensures
            self.records_in_outputs::<N>(view_key, filter, a + b) == self.records_in_outputs::<N>(
                view_key,
                filter,
                a,
            ) + self.records_in_outputs::<N>(view_key, filter, b),
        decreases b.len(),
    {
        if b.len() == 0 {
            assert(a + b =~= a);
            let ra = self.records_in_outputs::<N>(view_key, filter, a);
            assert(ra + seq![] =~= ra);
        } else {
            assert((a + b).drop_last() =~= a + b.drop_last());
            assert((a + b).last() == b.last());
            self.lemma_records_concat::<N>(view_key, filter, a, b.drop_last());
            let ra = self.records_in_outputs::<N>(view_key, filter, a);
            let rb = self.records_in_outputs::<N>(view_key, filter, b.drop_last());
            let sel = self.select::<N>(view_key, filter, b.last());
            assert((ra + rb) + sel =~= ra + (rb + sel));
        }
    }

    proof fn lemma_records_transitions<N: Network>(
        &self,
        view_key: ViewKey,
        filter: OutputRecordsFilter,
        s: Seq<TransitionModel>,
    )
        ensures
            self.records_in_transitions::<N>(view_key, filter, s) == self.records_in_outputs::<N>(
                view_key,
                filter,
                outputs_of_transitions(s),
            ),
        decreases s.len(),
    {
        if s.len() > 0 {
            self.lemma_records_transitions::<N>(view_key, filter, s.drop_last());
            self.lemma_records_concat::<N>(
                view_key,
                filter,
                outputs_of_transitions(s.drop_last()),
                s.last().1,
            );
        }
    }

    proof fn lemma_records_transactions<N: Network>(
        &self,
        view_key: ViewKey,
        filter: OutputRecordsFilter,
        s: Seq<TransactionModel>,
    )
        ensures
            self.records_in_transactions::<N>(view_key, filter, s) == self.records_in_outputs::<N>(
                view_key,
                filter,
                outputs_of_transactions(s),
            ),
        decreases s.len(),
    {
        if s.len() > 0 {
            self.lemma_records_transactions::<N>(view_key, filter, s.drop_last());
            self.lemma_records_transitions::<N>(view_key, filter, s.last().1);
            self.lemma_records_concat::<N>(
                view_key,
                filter,
                outputs_of_transactions(s.drop_last()),
                outputs_of_transitions(s.last().1),
            );
        }
    }

    proof fn lemma_records_below<N: Network>(
        &self,
        view_key: ViewKey,
        filter: OutputRecordsFilter,
        end: nat,
    )
        ensures
            self.records_below::<N>(view_key, filter, end) == self.records_in_outputs::<N>(
                view_key,
                filter,
                self.outputs_below(end),
            ),
        decreases end,
    {
        if end > 0 {
            let h = (end - 1) as nat;
            self.lemma_records_below::<N>(view_key, filter, h);
            if self.transactions@.contains_key(h as u32) {
                let t = self.transactions@[h as u32]@;
                self.lemma_records_transactions::<N>(view_key, filter, t);
                self.lemma_records_concat::<N>(
                    view_key,
                    filter,
                    self.outputs_below(h),
                    outputs_of_transactions(t),
                );
            } else {
                let o = self.outputs_below(h);
                let r = self.records_in_outputs::<N>(view_key, filter, o);
                assert(o + seq![] =~= o);
                assert(r + seq![] =~= r);
            }
        }
    }

    /// The scan is the selection over the flat history of outputs.
    pub proof fn lemma_scan_is_selection_over_history<N: Network>(
        &self,
        view_key: ViewKey,
        filter: OutputRecordsFilter,
    )
        ensures
            self.output_records_spec::<N>(view_key, filter) == self.records_in_outputs::<N>(
                view_key,
                filter,
                self.history(),
            ),
    {
        self.lemma_records_below::<N>(view_key, filter, self.current_height as nat + 1);
    }

    proof fn lemma_records_sound<N: Network>(
        &self,
        view_key: ViewKey,
        filter: OutputRecordsFilter,
        s: Seq<Output>,
        x: (Field, PlaintextRecord),
    )
        requires
            self.records_in_outputs::<N>(view_key, filter, s).contains(x),
        ensures
            exists|i: int|
                0 <= i < s.len() && s[i].commitment == x.0 && #[trigger] self.takes::<N>(
                    view_key,
                    filter,
                    s[i],
                    x.1,
                ),
        decreases s.len(),
    {
        let front = self.records_in_outputs::<N>(view_key, filter, s.drop_last());
        let sel = self.select::<N>(view_key, filter, s.last());
        let all = front + sel;
        let k = choose|k: int| 0 <= k < all.len() && all[k] == x;
        if k < front.len() {
            assert(front[k] == x);
            self.lemma_records_sound::<N>(view_key, filter, s.drop_last(), x);
            let i = choose|i: int|
                0 <= i < s.drop_last().len() && s.drop_last()[i].commitment == x.0
                    && #[trigger] self.takes::<N>(view_key, filter, s.drop_last()[i], x.1);
            assert(s.drop_last()[i] == s[i]);
        } else {
            assert(sel[k - front.len()] == x);
            assert(self.takes::<N>(view_key, filter, s[s.len() - 1], x.1));
        }
    }

    proof fn lemma_records_complete<N: Network>(
        &self,
        view_key: ViewKey,
        filter: OutputRecordsFilter,
        s: Seq<Output>,
        i: int,
        p: PlaintextRecord,
    )
        requires
            0 <= i < s.len(),
            self.takes::<N>(view_key, filter, s[i], p),
        ensures
            self.records_in_outputs::<N>(view_key, filter, s).contains((s[i].commitment, p)),
        decreases s.len(),
    {
        let front = self.records_in_outputs::<N>(view_key, filter, s.drop_last());
        let sel = self.select::<N>(view_key, filter, s.last());
        let all = front + sel;
        if i == s.len() - 1 {
            assert(all[front.len() as int] == (s[i].commitment, p));
        } else {
            assert(s.drop_last()[i] == s[i]);
            self.lemma_records_complete::<N>(view_key, filter, s.drop_last(), i, p);
            let k = choose|k: int| 0 <= k < front.len() && front[k] == (s[i].commitment, p);
            assert(all[k] == (s[i].commitment, p));
        }
    }

    /// A record is returned exactly when some output of the history with its
    /// commitment passes the filter, is owned by the view key's address, and
    /// decrypts to it. In particular, nothing is returned from an output that the
    /// address does not own, whatever its spend status.
    pub proof fn lemma_returned_iff_taken<N: Network>(
        &self,
        view_key: ViewKey,
        filter: OutputRecordsFilter,
        x: (Field, PlaintextRecord),
    )
        ensures
            self.yields::<N>(view_key, filter, x) <==> exists|i: int|
                0 <= i < self.history().len() && self.history()[i].commitment == x.0
                    && #[trigger] self.takes::<N>(view_key, filter, self.history()[i], x.1),
    {
        let s = self.history();
        self.lemma_scan_is_selection_over_history::<N>(view_key, filter);
        if self.yields::<N>(view_key, filter, x) {
            self.lemma_records_sound::<N>(view_key, filter, s, x);
        }
        if exists|i: int|
            0 <= i < s.len() && s[i].commitment == x.0 && #[trigger] self.takes::<N>(
                view_key,
                filter,
                s[i],
                x.1,
            ) {
            let i = choose|i: int|
                0 <= i < s.len() && s[i].commitment == x.0 && #[trigger] self.takes::<N>(
                    view_key,
                    filter,
                    s[i],
                    x.1,
                );
            self.lemma_records_complete::<N>(view_key, filter, s, i, x.1);
        }
    }
}

impl Ledger {
    /// Whether the scan of `view_key` under `filter` returns `x`.
    pub open spec fn yields<N: Network>(
        &self,
        view_key: ViewKey,
        filter: OutputRecordsFilter,
        x: (Field, PlaintextRecord),
    ) -> bool {
        self.output_records_spec::<N>(view_key, filter).contains(x)
    }

    /// Every record that a scan returns comes from an output of the history that
    /// the view key's address owns and that decrypts to it: spend classification
    /// alone never lets a record through.
    pub proof fn lemma_returned_records_are_owned<N: Network>(
        &self,
        view_key: ViewKey,
        filter: OutputRecordsFilter,
        x: (Field, PlaintextRecord),
    )
        requires
            self.yields::<N>(view_key, filter, x),
        ensures
            exists|i: int|
                0 <= i < self.history().len() && self.history()[i].commitment == x.0
                    && #[trigger] N::is_owner_spec(
                    self.history()[i].record,
                    N::to_address_spec(view_key),
                    view_key,
                ) && N::decrypt_spec(self.history()[i].record, view_key) == Some(x.1),
    {
        self.lemma_returned_iff_taken::<N>(view_key, filter, x);
        let i = choose|i: int|
            0 <= i < self.history().len() && self.history()[i].commitment == x.0
                && #[trigger] self.takes::<N>(view_key, filter, self.history()[i], x.1);
        assert(N::is_owner_spec(self.history()[i].record, N::to_address_spec(view_key), view_key));
    }

    /// Under one private key, the spent and the unspent scans never share a
    /// record, both return only records that the unfiltered scan returns, and a
    /// record of the unfiltered scan whose serial number can be derived is in one
    /// of them.
    pub proof fn lemma_spent_unspent_partition<N: Network>(
        &self,
        view_key: ViewKey,
        private_key: PrivateKey,
        x: (Field, PlaintextRecord),
    )
        ensures
            !(self.yields::<N>(view_key, OutputRecordsFilter::AllSpent(private_key), x)
                && self.yields::<N>(view_key, OutputRecordsFilter::AllUnspent(private_key), x)),
            self.yields::<N>(view_key, OutputRecordsFilter::AllSpent(private_key), x)
                || self.yields::<N>(view_key, OutputRecordsFilter::AllUnspent(private_key), x)
                ==> self.yields::<N>(view_key, OutputRecordsFilter::All, x),
            self.yields::<N>(view_key, OutputRecordsFilter::All, x)
                && serial_number_spec::<N>(private_key, x.0) is Some
                ==> self.yields::<N>(view_key, OutputRecordsFilter::AllSpent(private_key), x)
                || self.yields::<N>(view_key, OutputRecordsFilter::AllUnspent(private_key), x),
    {
        self.lemma_split::<N>(
            view_key,
            OutputRecordsFilter::AllSpent(private_key),
            OutputRecordsFilter::AllUnspent(private_key),
            x,
        );
    }

    /// Under one graph key, the spent and the unspent scans never share a record,
    /// both return only records that the unfiltered scan returns, and a record of
    /// the unfiltered scan whose tag can be derived is in one of them.
    pub proof fn lemma_tag_spent_unspent_partition<N: Network>(
        &self,
        view_key: ViewKey,
        graph_key: GraphKey,
        x: (Field, PlaintextRecord),
    )
        ensures
            !(self.yields::<N>(view_key, OutputRecordsFilter::Spent(graph_key), x)
                && self.yields::<N>(view_key, OutputRecordsFilter::Unspent(graph_key), x)),
            self.yields::<N>(view_key, OutputRecordsFilter::Spent(graph_key), x)
                || self.yields::<N>(view_key, OutputRecordsFilter::Unspent(graph_key), x)
                ==> self.yields::<N>(view_key, OutputRecordsFilter::All, x),
            self.yields::<N>(view_key, OutputRecordsFilter::All, x)
                && tag_spec::<N>(graph_key, x.0) is Some
                ==> self.yields::<N>(view_key, OutputRecordsFilter::Spent(graph_key), x)
                || self.yields::<N>(view_key, OutputRecordsFilter::Unspent(graph_key), x),
    {
        self.lemma_split::<N>(
            view_key,
            OutputRecordsFilter::Spent(graph_key),
            OutputRecordsFilter::Unspent(graph_key),
            x,
        );
    }

    proof fn lemma_split<N: Network>(
        &self,
        view_key: ViewKey,
        spent: OutputRecordsFilter,
        unspent: OutputRecordsFilter,
        x: (Field, PlaintextRecord),
    )
        requires
            forall|c: Field| !(self.keeps::<N>(spent, c) && self.keeps::<N>(unspent, c)),
        ensures
            !(self.yields::<N>(view_key, spent, x)
                && self.yields::<N>(view_key, unspent, x)),
            self.yields::<N>(view_key, spent, x)
                || self.yields::<N>(view_key, unspent, x)
                ==> self.yields::<N>(view_key, OutputRecordsFilter::All, x),
            self.yields::<N>(view_key, OutputRecordsFilter::All, x)
                && (self.keeps::<N>(spent, x.0) || self.keeps::<N>(unspent, x.0))
                ==> self.yields::<N>(view_key, spent, x)
                || self.yields::<N>(view_key, unspent, x),
    {
        let h = self.history();
        self.lemma_returned_iff_taken::<N>(view_key, spent, x);
        self.lemma_returned_iff_taken::<N>(view_key, unspent, x);
        self.lemma_returned_iff_taken::<N>(view_key, OutputRecordsFilter::All, x);
        if self.yields::<N>(view_key, spent, x) {
            let i = choose|i: int|
                0 <= i < h.len() && h[i].commitment == x.0
                    && #[trigger] self.takes::<N>(view_key, spent, h[i], x.1);
            assert(self.takes::<N>(view_key, OutputRecordsFilter::All, h[i], x.1));
        }
        if self.yields::<N>(view_key, unspent, x) {
            let i = choose|i: int|
                0 <= i < h.len() && h[i].commitment == x.0
                    && #[trigger] self.takes::<N>(view_key, unspent, h[i], x.1);
            assert(self.takes::<N>(view_key, OutputRecordsFilter::All, h[i], x.1));
        }
        if self.yields::<N>(view_key, OutputRecordsFilter::All, x) {
            let i = choose|i: int|
                0 <= i < h.len() && h[i].commitment == x.0
                    && #[trigger] self.takes::<N>(view_key, OutputRecordsFilter::All, h[i], x.1);
            if self.keeps::<N>(spent, x.0) {
                assert(self.takes::<N>(view_key, spent, h[i], x.1));
            }
            if self.keeps::<N>(unspent, x.0) {
                assert(self.takes::<N>(view_key, unspent, h[i], x.1));
            }
        }
    }

    /// Whether the two schemes give `commitment` the same spend status: its serial
    /// number under `private_key` and its tag under `graph_key` both derive, and
    /// the spend index records either both or neither.
    pub open spec fn schemes_agree<N: Network>(
        &self,
        private_key: PrivateKey,
        graph_key: GraphKey,
        commitment: Field,
    ) -> bool {
        match (
            serial_number_spec::<N>(private_key, commitment),
            tag_spec::<N>(graph_key, commitment),
        ) {
            (Some(sn), Some(t)) => self.serial_numbers@.contains(sn) == self.tags@.contains(t),
            _ => false,
        }
    }

    /// Where the spend index is consistent under both schemes for a commitment, the
    /// tag scans and the serial-number scans agree on the records with that
    /// commitment.
    pub proof fn lemma_scheme_independence<N: Network>(
        &self,
        view_key: ViewKey,
        private_key: PrivateKey,
        graph_key: GraphKey,
        x: (Field, PlaintextRecord),
    )
        requires
            self.schemes_agree::<N>(private_key, graph_key, x.0),
        ensures
            self.yields::<N>(view_key, OutputRecordsFilter::Spent(graph_key), x)
                <==> self.yields::<N>(view_key, OutputRecordsFilter::AllSpent(private_key), x),
            self.yields::<N>(view_key, OutputRecordsFilter::Unspent(graph_key), x)
                <==> self.yields::<N>(view_key, OutputRecordsFilter::AllUnspent(private_key), x),
    {
        let h = self.history();
        let fs = seq![
            OutputRecordsFilter::Spent(graph_key),
            OutputRecordsFilter::AllSpent(private_key),
            OutputRecordsFilter::Unspent(graph_key),
            OutputRecordsFilter::AllUnspent(private_key),
        ];
        self.lemma_returned_iff_taken::<N>(view_key, fs[0], x);
        self.lemma_returned_iff_taken::<N>(view_key, fs[1], x);
        self.lemma_returned_iff_taken::<N>(view_key, fs[2], x);
        self.lemma_returned_iff_taken::<N>(view_key, fs[3], x);
        assert forall|i: int| 0 <= i < h.len() && h[i].commitment == x.0 implies
            self.takes::<N>(view_key, fs[0], h[i], x.1) == self.takes::<N>(view_key, fs[1], h[i], x.1)
                && self.takes::<N>(view_key, fs[2], h[i], x.1) == self.takes::<N>(
                view_key,
                fs[3],
                h[i],
                x.1,
            ) by {}
    }
}

} // verus!
