//! Records that the host chain reports: block headers of the external chain
//! and the metadata of finalized epochs.

use crate::value::{fits, Json, JsonValue};
use crate::wire::{
    as_record, field_i32, field_record, field_text, field_u32, field_u64, get_i32, get_record,
    get_text, get_u32, get_u64, key_views, keys_distinct, lemma_field_at, member, object, record,
    signed, unsigned, write_signed, write_text, write_unsigned, Wire,
};
use vstd::prelude::*;

verus! {

/// A block header of the external chain. The two hashes are hex strings in
/// display (byte-reversed) order.
#[derive(Clone, Debug, PartialEq)]
pub struct BtcBlockHeader {
    pub version: i32,
    pub prev_blockhash: String,
    pub merkle_root: String,
    pub time: u32,
    pub bits: u32,
    pub nonce: u32,
}

/// The mathematical value of a [`BtcBlockHeader`].
pub struct BtcBlockHeaderView {
    pub version: i32,
    pub prev_blockhash: Seq<char>,
    pub merkle_root: Seq<char>,
    pub time: u32,
    pub bits: u32,
    pub nonce: u32,
}

impl View for BtcBlockHeader {
    type V = BtcBlockHeaderView;

    open spec fn view(&self) -> BtcBlockHeaderView {
        BtcBlockHeaderView {
            version: self.version,
            prev_blockhash: self.prev_blockhash@,
            merkle_root: self.merkle_root@,
            time: self.time,
            bits: self.bits,
            nonce: self.nonce,
        }
    }
}

/// A block header together with its height in the external chain.
#[derive(Clone, Debug, PartialEq)]
pub struct BtcBlockHeaderInfo {
    pub header: BtcBlockHeader,
    pub height: u64,
}

/// The mathematical value of a [`BtcBlockHeaderInfo`].
pub struct BtcBlockHeaderInfoView {
    pub header: BtcBlockHeaderView,
    pub height: u64,
}

impl View for BtcBlockHeaderInfo {
    type V = BtcBlockHeaderInfoView;

    open spec fn view(&self) -> BtcBlockHeaderInfoView {
        BtcBlockHeaderInfoView { header: self.header@, height: self.height }
    }
}

/// The latest finalized epoch and the height of its last block.
#[derive(Clone, Copy, Debug, PartialEq, Eq)]
pub struct FinalizedEpochInfo {
    pub epoch_number: u64,
    pub last_block_height: u64,
}

impl Wire for BtcBlockHeader {
    open spec fn to_json(v: BtcBlockHeaderView) -> JsonValue {
        JsonValue::Object(
            seq![
                ("version"@, signed(v.version)),
                ("prev_blockhash"@, JsonValue::Text(v.prev_blockhash)),
                ("merkle_root"@, JsonValue::Text(v.merkle_root)),
                ("time"@, unsigned(v.time as u64)),
                ("bits"@, unsigned(v.bits as u64)),
                ("nonce"@, unsigned(v.nonce as u64)),
            ],
        )
    }

    open spec fn from_json(j: JsonValue) -> Option<BtcBlockHeaderView> {
        match record(
            j,
            seq!["version"@, "prev_blockhash"@, "merkle_root"@, "time"@, "bits"@, "nonce"@],
        ) {
            Some(m) => match (
                field_i32(m, "version"@),
                field_text(m, "prev_blockhash"@),
                field_text(m, "merkle_root"@),
                field_u32(m, "time"@),
                field_u32(m, "bits"@),
                field_u32(m, "nonce"@),
            ) {
                (
                    Some(version),
                    Some(prev_blockhash),
                    Some(merkle_root),
                    Some(time),
                    Some(bits),
                    Some(nonce),
                ) => Some(
                    BtcBlockHeaderView { version, prev_blockhash, merkle_root, time, bits, nonce },
                ),
                _ => None,
            },
            None => None,
        }
    }

    open spec fn depth() -> nat {
        1
    }

    fn encode(&self) -> (j: Json) {
        let mut members: Vec<(String, Json)> = Vec::new();
        members.push(member("version", write_signed(self.version)));
        members.push(member("prev_blockhash", write_text(self.prev_blockhash.as_str())));
        members.push(member("merkle_root", write_text(self.merkle_root.as_str())));
        members.push(member("time", write_unsigned(self.time as u64)));
        members.push(member("bits", write_unsigned(self.bits as u64)));
        members.push(member("nonce", write_unsigned(self.nonce as u64)));
        let j = object(members);
        assert(j.value()->Object_0 =~= Self::to_json(self@)->Object_0);
        j
    }

    fn decode(j: &Json) -> (r: Option<Self>) {
        let allowed = vec!["version", "prev_blockhash", "merkle_root", "time", "bits", "nonce"];
        assert(key_views(allowed@) =~= seq![
            "version"@,
            "prev_blockhash"@,
            "merkle_root"@,
            "time"@,
            "bits"@,
            "nonce"@,
        ]);
        let members = match as_record(j, &allowed) {
            Some(members) => members,
            None => {
                return None;
            },
        };
        match (
            get_i32(members, "version"),
            get_text(members, "prev_blockhash"),
            get_text(members, "merkle_root"),
            get_u32(members, "time"),
            get_u32(members, "bits"),
            get_u32(members, "nonce"),
        ) {
            (
                Some(version),
                Some(prev_blockhash),
                Some(merkle_root),
                Some(time),
                Some(bits),
                Some(nonce),
            ) => Some(BtcBlockHeader { version, prev_blockhash, merkle_root, time, bits, nonce }),
            _ => None,
        }
    }

    proof fn lemma_round_trip(v: BtcBlockHeaderView) {
        reveal_strlit("version");
        reveal_strlit("prev_blockhash");
        reveal_strlit("merkle_root");
        reveal_strlit("time");
        reveal_strlit("bits");
        reveal_strlit("nonce");
        let m = Self::to_json(v)->Object_0;
        let allowed = seq![
            "version"@,
            "prev_blockhash"@,
            "merkle_root"@,
            "time"@,
            "bits"@,
            "nonce"@,
        ];
        assert(allowed[0] == m[0].0 && allowed[1] == m[1].0 && allowed[2] == m[2].0 && allowed[3]
            == m[3].0 && allowed[4] == m[4].0 && allowed[5] == m[5].0);
        assert(m.len() == 6 && m[0].0.len() == 7 && m[1].0.len() == 14 && m[2].0.len() == 11
            && m[3].0.len() == 4 && m[4].0.len() == 4 && m[5].0.len() == 5);
        assert(m[3].0[0] != m[4].0[0]);
        assert(keys_distinct(m));
        lemma_field_at(m, 0);
        lemma_field_at(m, 1);
        lemma_field_at(m, 2);
        lemma_field_at(m, 3);
        lemma_field_at(m, 4);
        lemma_field_at(m, 5);
        assert(fits(m[0].1, 0) && fits(m[1].1, 0) && fits(m[2].1, 0) && fits(m[3].1, 0) && fits(
            m[4].1,
            0,
        ) && fits(m[5].1, 0));
    }
}

impl Wire for BtcBlockHeaderInfo {
    open spec fn to_json(v: BtcBlockHeaderInfoView) -> JsonValue {
        JsonValue::Object(
            seq![("header"@, BtcBlockHeader::to_json(v.header)), ("height"@, unsigned(v.height))],
        )
    }

    open spec fn from_json(j: JsonValue) -> Option<BtcBlockHeaderInfoView> {
        match record(j, seq!["header"@, "height"@]) {
            Some(m) => match (
                field_record::<BtcBlockHeader>(m, "header"@),
                field_u64(m, "height"@),
            ) {
                (Some(header), Some(height)) => Some(BtcBlockHeaderInfoView { header, height }),
                _ => None,
            },
            None => None,
        }
    }

    open spec fn depth() -> nat {
        2
    }

    fn encode(&self) -> (j: Json) {
        let mut members: Vec<(String, Json)> = Vec::new();
        members.push(member("header", self.header.encode()));
        members.push(member("height", write_unsigned(self.height)));
        let j = object(members);
        assert(j.value()->Object_0 =~= Self::to_json(self@)->Object_0);
        j
    }

    fn decode(j: &Json) -> (r: Option<Self>) {
        let allowed = vec!["header", "height"];
        assert(key_views(allowed@) =~= seq!["header"@, "height"@]);
        let members = match as_record(j, &allowed) {
            Some(members) => members,
            None => {
                return None;
            },
        };
        match (get_record::<BtcBlockHeader>(members, "header"), get_u64(members, "height")) {
            (Some(header), Some(height)) => Some(BtcBlockHeaderInfo { header, height }),
            _ => None,
        }
    }

    proof fn lemma_round_trip(v: BtcBlockHeaderInfoView) {
        reveal_strlit("header");
        reveal_strlit("height");
        let m = Self::to_json(v)->Object_0;
        let allowed = seq!["header"@, "height"@];
        assert(allowed[0] == m[0].0 && allowed[1] == m[1].0);
        assert(m.len() == 2 && m[0].0[2] != m[1].0[2]);
        assert(keys_distinct(m));
        lemma_field_at(m, 0);
        lemma_field_at(m, 1);
        BtcBlockHeader::lemma_round_trip(v.header);
        assert(fits(m[0].1, 1) && fits(m[1].1, 1));
    }
}

impl View for FinalizedEpochInfo {
    type V = FinalizedEpochInfo;

    open spec fn view(&self) -> FinalizedEpochInfo {
        *self
    }
}

impl Wire for FinalizedEpochInfo {
    open spec fn to_json(v: FinalizedEpochInfo) -> JsonValue {
        JsonValue::Object(
            seq![
                ("epoch_number"@, unsigned(v.epoch_number)),
                ("last_block_height"@, unsigned(v.last_block_height)),
            ],
        )
    }

    open spec fn from_json(j: JsonValue) -> Option<FinalizedEpochInfo> {
        match record(j, seq!["epoch_number"@, "last_block_height"@]) {
            Some(m) => match (
                field_u64(m, "epoch_number"@),
                field_u64(m, "last_block_height"@),
            ) {
                (Some(epoch_number), Some(last_block_height)) => Some(
                    FinalizedEpochInfo { epoch_number, last_block_height },
                ),
                _ => None,
            },
            None => None,
        }
    }

    open spec fn depth() -> nat {
        1
    }

    fn encode(&self) -> (j: Json) {
        let mut members: Vec<(String, Json)> = Vec::new();
        members.push(member("epoch_number", write_unsigned(self.epoch_number)));
        members.push(member("last_block_height", write_unsigned(self.last_block_height)));
        let j = object(members);
        assert(j.value()->Object_0 =~= Self::to_json(self@)->Object_0);
        j
    }

    fn decode(j: &Json) -> (r: Option<Self>) {
        let allowed = vec!["epoch_number", "last_block_height"];
        assert(key_views(allowed@) =~= seq!["epoch_number"@, "last_block_height"@]);
        let members = match as_record(j, &allowed) {
            Some(members) => members,
            None => {
                return None;
            },
        };
        match (get_u64(members, "epoch_number"), get_u64(members, "last_block_height")) {
            (Some(epoch_number), Some(last_block_height)) => Some(
                FinalizedEpochInfo { epoch_number, last_block_height },
            ),
            _ => None,
        }
    }

    proof fn lemma_round_trip(v: FinalizedEpochInfo) {
        reveal_strlit("epoch_number");
        reveal_strlit("last_block_height");
        let m = Self::to_json(v)->Object_0;
        let allowed = seq!["epoch_number"@, "last_block_height"@];
        assert(allowed[0] == m[0].0 && allowed[1] == m[1].0);
        assert(m.len() == 2 && m[0].0.len() == 12 && m[1].0.len() == 17);
        assert(keys_distinct(m));
        lemma_field_at(m, 0);
        lemma_field_at(m, 1);
        assert(fits(m[0].1, 0) && fits(m[1].1, 0));
    }
}

} // verus!
