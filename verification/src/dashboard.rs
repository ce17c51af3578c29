//! What a dashboard shows of the attack, kept up to date from its events.

use vstd::prelude::*;

use crate::block::{intermediate_of, xor_bytes, zero_bytes, Block};
use crate::block_size::BlockSize;
use crate::codec::block_views;
use crate::ui_event::{UiControlEvent, UiDecryptionEvent, UiEncryptionEvent, UiEvent};

verus! {

/// What a dashboard shows.
pub struct Dashboard {
    bytes_to_finish: usize,
    bytes_finished: usize,
    cypher_text_blocks: Vec<Block>,
    forged_blocks: Vec<Block>,
    intermediate_blocks: Vec<Block>,
    plain_text_blocks: Vec<Block>,
    print_after_exit: Vec<String>,
    exit_code: i32,
    slow_redraw: bool,
    selected: Option<usize>,
}

/// What a dashboard shows, as a value.
pub struct DashboardView {
    /// How many bytes are to be solved in all.
    pub bytes_to_finish: usize,
    /// How many bytes are solved.
    pub bytes_finished: usize,
    pub cypher_text_blocks: Seq<Seq<u8>>,
    pub forged_blocks: Seq<Seq<u8>>,
    pub intermediate_blocks: Seq<Seq<u8>>,
    pub plain_text_blocks: Seq<Seq<u8>>,
    /// What to print once the dashboard is closed, in order.
    pub print_after_exit: Seq<Seq<char>>,
    pub exit_code: i32,
    /// Whether the work is done, so that drawing rarely is enough.
    pub slow_redraw: bool,
    /// The row that is selected in the tables of blocks, if any.
    pub selected: Option<usize>,
}

/// `count` zero blocks of the size of `like`.
pub open spec fn zero_blocks(count: nat, like: Seq<u8>) -> Seq<Seq<u8>> {
    Seq::new(count, |i: int| zero_bytes(like.len()))
}

/// The share of `finished` in `to_finish` in percent, rounded down, and a
/// hundred where more is finished than was to be, or nothing was to be.
pub open spec fn percent_of(finished: int, to_finish: int) -> int {
    if to_finish <= 0 || finished >= to_finish {
        100
    } else {
        (finished * 100) / to_finish
    }
}

impl DashboardView {
    /// The dashboard before anything happened: one byte to solve, none
    /// solved, no blocks.
    pub open spec fn initial() -> Self {
        DashboardView {
            bytes_to_finish: 1,
            bytes_finished: 0,
            cypher_text_blocks: Seq::empty(),
            forged_blocks: Seq::empty(),
            intermediate_blocks: Seq::empty(),
            plain_text_blocks: Seq::empty(),
            print_after_exit: Seq::empty(),
            exit_code: 0,
            slow_redraw: false,
            selected: None,
        }
    }

    /// The dashboard as a decryption of `blocks` starts: the ciphertext is
    /// shown, all other blocks are zero.
    pub open spec fn decryption_started(self, blocks: Seq<Seq<u8>>) -> Self {
        let zeros = if blocks.len() == 0 {
            Seq::empty()
        } else {
            zero_blocks(blocks.len(), blocks[0])
        };
        DashboardView {
            cypher_text_blocks: blocks,
            forged_blocks: zeros,
            intermediate_blocks: zeros,
            plain_text_blocks: zeros,
            ..self
        }
    }

    /// Whether a forged block for the block with index `idx` can be shown:
    /// the index is that of a block behind the first in every table, and the
    /// forged block has the size of the block it is mixed with.
    pub open spec fn shows(self, mixed_with: Seq<Seq<u8>>, forged: Seq<u8>, idx: int) -> bool {
        &&& 1 <= idx
        &&& idx < self.cypher_text_blocks.len()
        &&& idx < self.forged_blocks.len()
        &&& idx < self.intermediate_blocks.len()
        &&& idx < self.plain_text_blocks.len()
        &&& forged.len() == mixed_with[idx].len()
    }

    /// The dashboard with a forged block for the block with index `idx` of a
    /// decryption: the forged block stands in front of that block, what it
    /// stands for and the plain text it yields stand at the index.
    pub open spec fn decryption_block(self, forged: Seq<u8>, idx: int) -> Self {
        if self.shows(self.cypher_text_blocks, forged, idx) && forged.len()
            == self.cypher_text_blocks[idx - 1].len() {
            DashboardView {
                forged_blocks: self.forged_blocks.update(idx - 1, forged),
                intermediate_blocks: self.intermediate_blocks.update(idx, intermediate_of(forged)),
                plain_text_blocks: self.plain_text_blocks.update(
                    idx,
                    xor_bytes(intermediate_of(forged), self.cypher_text_blocks[idx - 1]),
                ),
                ..self
            }
        } else {
            self
        }
    }

    /// The dashboard as an encryption of `plain` starts from the block
    /// `init`: the plain text is shown behind a zero block, the ciphertext
    /// is zero but for its last block.
    pub open spec fn encryption_started(self, plain: Seq<Seq<u8>>, init: Seq<u8>) -> Self {
        DashboardView {
            plain_text_blocks: seq![zero_bytes(init.len())] + plain,
            intermediate_blocks: zero_blocks(plain.len() + 1, init),
            forged_blocks: zero_blocks(plain.len() + 1, init),
            cypher_text_blocks: zero_blocks(plain.len(), init).push(init),
            ..self
        }
    }

    /// The dashboard with a forged block for the block with index `idx` of
    /// an encryption: what it stands for stands at the index, the forged
    /// block and the block of ciphertext it yields stand in front.
    pub open spec fn encryption_block(self, forged: Seq<u8>, idx: int) -> Self {
        if self.shows(self.plain_text_blocks, forged, idx) {
            DashboardView {
                intermediate_blocks: self.intermediate_blocks.update(idx, intermediate_of(forged)),
                forged_blocks: self.forged_blocks.update(idx - 1, forged),
                cypher_text_blocks: self.cypher_text_blocks.update(
                    idx - 1,
                    xor_bytes(intermediate_of(forged), self.plain_text_blocks[idx]),
                ),
                ..self
            }
        } else {
            self
        }
    }

    /// The progress in percent.
    pub open spec fn progress(self) -> int {
        percent_of(self.bytes_finished as int, self.bytes_to_finish as int)
    }
}

impl View for Dashboard {
    type V = DashboardView;

    closed spec fn view(&self) -> DashboardView {
        DashboardView {
            bytes_to_finish: self.bytes_to_finish,
            bytes_finished: self.bytes_finished,
            cypher_text_blocks: block_views(self.cypher_text_blocks@),
            forged_blocks: block_views(self.forged_blocks@),
            intermediate_blocks: block_views(self.intermediate_blocks@),
            plain_text_blocks: block_views(self.plain_text_blocks@),
            print_after_exit: Seq::new(
                self.print_after_exit@.len(),
                |i: int| self.print_after_exit@[i]@,
            ),
            exit_code: self.exit_code,
            slow_redraw: self.slow_redraw,
            selected: self.selected,
        }
    }
}

fn zeros(count: usize, like: &Block) -> (blocks: Vec<Block>)
    ensures
        block_views(blocks@) == zero_blocks(count as nat, like@),
        blocks@.len() == count,
        forall|j: int| 0 <= j < count ==> (#[trigger] blocks@[j])@ == zero_bytes(like@.len()),
{
    let size = like.block_size();
    let mut blocks: Vec<Block> = Vec::new();
    let mut i: usize = 0;
    while i < count
        invariant
            i <= count,
            size.spec_len() == like@.len(),
            blocks@.len() == i,
            forall|j: int| 0 <= j < i ==> (#[trigger] blocks@[j])@ == zero_bytes(like@.len()),
        decreases count - i,
    {
        blocks.push(Block::new(&size));
        i += 1;
    }
    assert(block_views(blocks@) =~= zero_blocks(count as nat, like@));
    blocks
}

/// The width below which the tables of blocks stand one above the other:
/// room for two tables of blocks in hexadecimal and what is around them.
pub fn min_width_for_horizontal_layout(block_size: &BlockSize) -> (width: u16)
    ensures
        width == block_size.spec_len() * 12,
{
    let len: u16 = block_size.len() as u16;
    len * 12
}

impl Dashboard {
    /// The dashboard before anything happened.
    pub fn new() -> (dashboard: Dashboard)
        ensures
            dashboard@ == DashboardView::initial(),
    {
        let dashboard = Dashboard {
            bytes_to_finish: 1,
            bytes_finished: 0,
            cypher_text_blocks: Vec::new(),
            forged_blocks: Vec::new(),
            intermediate_blocks: Vec::new(),
            plain_text_blocks: Vec::new(),
            print_after_exit: Vec::new(),
            exit_code: 0,
            slow_redraw: false,
            selected: None,
        };
        assert(dashboard@.cypher_text_blocks =~= Seq::empty());
        assert(dashboard@.forged_blocks =~= Seq::empty());
        assert(dashboard@.intermediate_blocks =~= Seq::empty());
        assert(dashboard@.plain_text_blocks =~= Seq::empty());
        assert(dashboard@.print_after_exit =~= Seq::empty());
        dashboard
    }

    /// Takes in an event of the attack.
    pub fn handle_application_event(&mut self, event: UiEvent)
        ensures
            match event {
                UiEvent::Decryption(UiDecryptionEvent::InitDecryption(blocks)) => final(self)@
                    == old(self)@.decryption_started(block_views(blocks@)),
                UiEvent::Decryption(UiDecryptionEvent::BlockSolved(forged, idx)) => final(self)@
                    == old(self)@.decryption_block(forged@, idx as int),
                UiEvent::Decryption(UiDecryptionEvent::BlockWip(forged, idx)) => final(self)@
                    == old(self)@.decryption_block(forged@, idx as int),
                UiEvent::Encryption(UiEncryptionEvent::InitEncryption(plain, init)) => final(self)@
                    == old(self)@.encryption_started(block_views(plain@), init@),
                UiEvent::Encryption(UiEncryptionEvent::BlockSolved(forged, idx)) => final(self)@
                    == old(self)@.encryption_block(forged@, idx as int),
                UiEvent::Encryption(UiEncryptionEvent::BlockWip(forged, idx)) => final(self)@
                    == old(self)@.encryption_block(forged@, idx as int),
                UiEvent::Control(UiControlEvent::IndicateWork(bytes)) => final(self)@ == (
                DashboardView { bytes_to_finish: bytes, ..old(self)@ }),
                UiEvent::Control(UiControlEvent::ProgressUpdate(bytes)) => final(self)@ == (
                DashboardView {
                    bytes_finished: if old(self)@.bytes_finished + bytes > usize::MAX {
                        usize::MAX
                    } else {
                        (old(self)@.bytes_finished + bytes) as usize
                    },
                    ..old(self)@
                }),
                UiEvent::Control(UiControlEvent::PrintAfterExit(message)) => final(self)@ == (
                DashboardView {
                    print_after_exit: old(self)@.print_after_exit.push(message@),
                    ..old(self)@
                }),
                UiEvent::Control(UiControlEvent::ExitCode(code)) => final(self)@ == (DashboardView {
                    exit_code: code,
                    ..old(self)@
                }),
                UiEvent::Control(UiControlEvent::SlowRedraw) => final(self)@ == (DashboardView {
                    slow_redraw: true,
                    ..old(self)@
                }),
            },
    {
        match event {
            UiEvent::Decryption(event) => self.handle_decryption_event(event),
            UiEvent::Encryption(event) => self.handle_encryption_event(event),
            UiEvent::Control(event) => self.handle_control_event(event),
        }
    }

    /// Takes in an event of a decryption.
    pub fn handle_decryption_event(&mut self, event: UiDecryptionEvent)
        ensures
            match event {
                UiDecryptionEvent::InitDecryption(blocks) => final(self)@
                    == old(self)@.decryption_started(block_views(blocks@)),
                UiDecryptionEvent::BlockSolved(forged, idx) => final(self)@
                    == old(self)@.decryption_block(forged@, idx as int),
                UiDecryptionEvent::BlockWip(forged, idx) => final(self)@
                    == old(self)@.decryption_block(forged@, idx as int),
            },
    {
        match event {
            UiDecryptionEvent::InitDecryption(original_cypher_text_blocks) => {
                let amount = original_cypher_text_blocks.len();
                if amount == 0 {
                    self.forged_blocks = Vec::new();
                    self.intermediate_blocks = Vec::new();
                    self.plain_text_blocks = Vec::new();
                    assert(block_views(self.forged_blocks@) =~= Seq::empty());
                } else {
                    self.forged_blocks = zeros(amount, &original_cypher_text_blocks[0]);
                    self.intermediate_blocks = zeros(amount, &original_cypher_text_blocks[0]);
                    self.plain_text_blocks = zeros(amount, &original_cypher_text_blocks[0]);
                }
                self.cypher_text_blocks = original_cypher_text_blocks;
            },
            UiDecryptionEvent::BlockSolved(forged_block, cypher_text_block_idx) => {
                self.show_decryption(forged_block, cypher_text_block_idx);
            },
            UiDecryptionEvent::BlockWip(forged_block, cypher_text_block_idx) => {
                self.show_decryption(forged_block, cypher_text_block_idx);
            },
        }
    }

    fn show_decryption(&mut self, forged_block: Block, idx: usize)
        ensures
            final(self)@ == old(self)@.decryption_block(forged_block@, idx as int),
    {
        if idx < 1 || idx >= self.cypher_text_blocks.len() || idx >= self.forged_blocks.len()
            || idx >= self.intermediate_blocks.len() || idx >= self.plain_text_blocks.len() {
            return ;
        }
        let previous = self.cypher_text_blocks[idx - 1];
        if forged_block.len() != self.cypher_text_blocks[idx].len() || forged_block.len()
            != previous.len() {
            return ;
        }
        let intermediate = forged_block.to_intermediate();
        let plain_text = intermediate.xor(&previous);
        let ghost before = self@;
        self.forged_blocks[idx - 1] = forged_block;
        self.intermediate_blocks[idx] = intermediate;
        self.plain_text_blocks[idx] = plain_text;
        proof {
            let after = before.decryption_block(forged_block@, idx as int);
            assert(self@.forged_blocks =~= after.forged_blocks);
            assert(self@.intermediate_blocks =~= after.intermediate_blocks);
            assert(self@.plain_text_blocks =~= after.plain_text_blocks);
        }
    }

    /// Takes in an event of an encryption.
    pub fn handle_encryption_event(&mut self, event: UiEncryptionEvent)
        ensures
            match event {
                UiEncryptionEvent::InitEncryption(plain, init) => final(self)@
                    == old(self)@.encryption_started(block_views(plain@), init@),
                UiEncryptionEvent::BlockSolved(forged, idx) => final(self)@
                    == old(self)@.encryption_block(forged@, idx as int),
                UiEncryptionEvent::BlockWip(forged, idx) => final(self)@
                    == old(self)@.encryption_block(forged@, idx as int),
            },
    {
        match event {
            UiEncryptionEvent::InitEncryption(plain_text_blocks, init_cypher_text) => {
                let amount = plain_text_blocks.len();
                let ghost plain = block_views(plain_text_blocks@);
                let size = init_cypher_text.block_size();
                let mut shown_plain: Vec<Block> = Vec::new();
                shown_plain.push(Block::new(&size));
                shown_plain.extend_from_slice(plain_text_blocks.as_slice());
                assert(block_views(shown_plain@) =~= seq![zero_bytes(init_cypher_text@.len())]
                    + plain);
                let mut shown_cypher = zeros(amount, &init_cypher_text);
                shown_cypher.push(init_cypher_text);
                assert(block_views(shown_cypher@) =~= zero_blocks(
                    amount as nat,
                    init_cypher_text@,
                ).push(init_cypher_text@));
                let mut shown_zeros = zeros(amount, &init_cypher_text);
                shown_zeros.push(Block::new(&size));
                assert(block_views(shown_zeros@) =~= zero_blocks(
                    (amount + 1) as nat,
                    init_cypher_text@,
                ));
                self.intermediate_blocks = zeros(amount, &init_cypher_text);
                self.intermediate_blocks.push(Block::new(&size));
                assert(block_views(self.intermediate_blocks@) =~= zero_blocks(
                    (amount + 1) as nat,
                    init_cypher_text@,
                ));
                self.forged_blocks = shown_zeros;
                self.plain_text_blocks = shown_plain;
                self.cypher_text_blocks = shown_cypher;
            },
            UiEncryptionEvent::BlockSolved(forged_block, cypher_text_block_idx) => {
                self.show_encryption(forged_block, cypher_text_block_idx);
            },
            UiEncryptionEvent::BlockWip(forged_block, cypher_text_block_idx) => {
                self.show_encryption(forged_block, cypher_text_block_idx);
            },
        }
    }

    fn show_encryption(&mut self, forged_block: Block, idx: usize)
        ensures
            final(self)@ == old(self)@.encryption_block(forged_block@, idx as int),
    {
        if idx < 1 || idx >= self.cypher_text_blocks.len() || idx >= self.forged_blocks.len()
            || idx >= self.intermediate_blocks.len() || idx >= self.plain_text_blocks.len() {
            return ;
        }
        let plain_text = self.plain_text_blocks[idx];
        if forged_block.len() != plain_text.len() {
            return ;
        }
        let intermediate = forged_block.to_intermediate();
        let cypher_text = intermediate.xor(&plain_text);
        let ghost before = self@;
        self.intermediate_blocks[idx] = intermediate;
        self.forged_blocks[idx - 1] = forged_block;
        self.cypher_text_blocks[idx - 1] = cypher_text;
        proof {
            let after = before.encryption_block(forged_block@, idx as int);
            assert(self@.forged_blocks =~= after.forged_blocks);
            assert(self@.intermediate_blocks =~= after.intermediate_blocks);
            assert(self@.cypher_text_blocks =~= after.cypher_text_blocks);
        }
    }

    /// Takes in an event that concerns the dashboard itself.
    pub fn handle_control_event(&mut self, event: UiControlEvent)
        ensures
            match event {
                UiControlEvent::IndicateWork(bytes) => final(self)@ == (DashboardView {
                    bytes_to_finish: bytes,
                    ..old(self)@
                }),
                UiControlEvent::ProgressUpdate(bytes) => final(self)@ == (DashboardView {
                    bytes_finished: if old(self)@.bytes_finished + bytes > usize::MAX {
                        usize::MAX
                    } else {
                        (old(self)@.bytes_finished + bytes) as usize
                    },
                    ..old(self)@
                }),
                UiControlEvent::PrintAfterExit(message) => final(self)@ == (DashboardView {
                    print_after_exit: old(self)@.print_after_exit.push(message@),
                    ..old(self)@
                }),
                UiControlEvent::ExitCode(code) => final(self)@ == (DashboardView {
                    exit_code: code,
                    ..old(self)@
                }),
                UiControlEvent::SlowRedraw => final(self)@ == (DashboardView {
                    slow_redraw: true,
                    ..old(self)@
                }),
            },
    {
        match event {
            UiControlEvent::IndicateWork(bytes_to_finish) => {
                self.bytes_to_finish = bytes_to_finish;
            },
            UiControlEvent::ProgressUpdate(newly_solved_bytes) => {
                self.bytes_finished = if newly_solved_bytes > usize::MAX - self.bytes_finished {
                    usize::MAX
                } else {
                    self.bytes_finished + newly_solved_bytes
                };
            },
            UiControlEvent::PrintAfterExit(message) => {
                let ghost before = self@.print_after_exit;
                self.print_after_exit.push(message);
                assert(self@.print_after_exit =~= before.push(message@));
            },
            UiControlEvent::ExitCode(code) => {
                self.exit_code = code;
            },
            UiControlEvent::SlowRedraw => {
                self.slow_redraw = true;
            },
        }
    }

    /// The progress in percent: the share of the bytes that are solved in
    /// those that are to be solved, rounded down; a hundred at most.
    pub fn progress(&self) -> (percent: u8)
        ensures
            percent == self@.progress(),
            percent <= 100,
    {
        if self.bytes_to_finish == 0 || self.bytes_finished >= self.bytes_to_finish {
            return 100;
        }
        let finished: u128 = self.bytes_finished as u128;
        let to_finish: u128 = self.bytes_to_finish as u128;
        assert(((finished * 100) as int) / (to_finish as int) < 100int) by (nonlinear_arith)
            requires
                0 <= finished < to_finish,
        ;
        assert(finished * 100 <= 0xffff_ffff_ffff_ffff * 100) by (nonlinear_arith)
            requires
                finished <= 0xffff_ffff_ffff_ffff,
        ;
        (finished * 100 / to_finish) as u8
    }

    /// The blocks of ciphertext.
    pub fn cypher_text_blocks(&self) -> (blocks: &Vec<Block>)
        ensures
            block_views(blocks@) == self@.cypher_text_blocks,
    {
        &self.cypher_text_blocks
    }

    /// The forged blocks.
    pub fn forged_blocks(&self) -> (blocks: &Vec<Block>)
        ensures
            block_views(blocks@) == self@.forged_blocks,
    {
        &self.forged_blocks
    }

    /// What the forged blocks stand for.
    pub fn intermediate_blocks(&self) -> (blocks: &Vec<Block>)
        ensures
            block_views(blocks@) == self@.intermediate_blocks,
    {
        &self.intermediate_blocks
    }

    /// The blocks of plain text.
    pub fn plain_text_blocks(&self) -> (blocks: &Vec<Block>)
        ensures
            block_views(blocks@) == self@.plain_text_blocks,
    {
        &self.plain_text_blocks
    }

    /// What to print once the dashboard is closed.
    pub fn print_after_exit(&self) -> (messages: &Vec<String>)
        ensures
            messages@.len() == self@.print_after_exit.len(),
            forall|i: int|
                0 <= i < messages@.len() ==> (#[trigger] messages@[i])@
                    == self@.print_after_exit[i],
    {
        &self.print_after_exit
    }

    /// The code to end the process with.
    pub fn exit_code(&self) -> (code: i32)
        ensures
            code == self@.exit_code,
    {
        self.exit_code
    }

    /// Whether the work is done.
    pub fn slow_redraw(&self) -> (slow: bool)
        ensures
            slow == self@.slow_redraw,
    {
        self.slow_redraw
    }

    /// The row that is selected in the tables of blocks.
    pub fn selected(&self) -> (selected: Option<usize>)
        ensures
            selected == self@.selected,
    {
        self.selected
    }

    /// Moves the selection one row up; with nothing selected, or the first
    /// row, the first row is selected.
    pub fn select_previous(&mut self)
        ensures
            final(self)@ == (DashboardView {
                selected: Some(
                    match old(self)@.selected {
                        Some(idx) => if idx == 0 {
                            0usize
                        } else {
                            (idx - 1) as usize
                        },
                        None => 0usize,
                    },
                ),
                ..old(self)@
            }),
    {
        self.selected = Some(
            match self.selected {
                Some(idx) => if idx == 0 {
                    0
                } else {
                    idx - 1
                },
                None => 0,
            },
        );
    }

    /// Moves the selection one row down, as far as the last block of
    /// ciphertext; with nothing selected, the second row is selected.
    pub fn select_next(&mut self)
        ensures
            final(self)@ == (DashboardView {
                selected: Some(
                    match old(self)@.selected {
                        Some(idx) => if idx + 1 < old(self)@.cypher_text_blocks.len() {
                            (idx + 1) as usize
                        } else if old(self)@.cypher_text_blocks.len() == 0 {
                            0usize
                        } else {
                            (old(self)@.cypher_text_blocks.len() - 1) as usize
                        },
                        None => 1usize,
                    },
                ),
                ..old(self)@
            }),
    {
        let amount = self.cypher_text_blocks.len();
        self.selected = Some(
            match self.selected {
                Some(idx) => if idx < amount && idx + 1 < amount {
                    idx + 1
                } else if amount == 0 {
                    0
                } else {
                    amount - 1
                },
                None => 1,
            },
        );
    }
}

} // verus!
