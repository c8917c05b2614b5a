//! The lists of a board.
use vstd::prelude::*;

verus! {

/// A named list of tasks on a board. `board_type` tells which kind of board
/// `board` refers to: `"private"` or `"team"`.
#[derive(Debug)]
pub struct List {
    pub id: Option<i32>,
    pub name: String,
    pub board: i32,
    pub board_type: String,
}

/// The predicate "lies on the board `board_id` of kind `board_type`".
pub open spec fn on_board(board_type: Seq<char>, board_id: i32) -> spec_fn(List) -> bool {
    |l: List| l.board == board_id && l.board_type@ == board_type
}

impl Clone for List {
    fn clone(&self) -> (r: Self)
        ensures
            r == *self,
    {
        List {
            id: self.id,
            name: self.name.clone(),
            board: self.board,
            board_type: self.board_type.clone(),
        }
    }
}

impl List {
    /// The lists of the given board, in the order of `lists`.
    pub fn get(board_type: String, board_id: i32, lists: &Vec<List>) -> (r: Vec<List>)
        ensures
            r@ == lists@.filter(on_board(board_type@, board_id)),
    {
        let ghost pred = on_board(board_type@, board_id);
        let mut out: Vec<List> = Vec::new();
        let mut i: usize = 0;
        proof {
            assert(lists@.subrange(0, 0) =~= Seq::<List>::empty());
            assert(Seq::<List>::empty().filter(pred) =~= Seq::<List>::empty()) by {
                reveal(Seq::filter);
            }
        }
        while i < lists.len()
            invariant
                i <= lists.len(),
                pred == on_board(board_type@, board_id),
                out@ == lists@.subrange(0, i as int).filter(pred),
            decreases lists.len() - i,
        {
            proof {
                lists@.subrange(0, i as int).lemma_filter_push(lists@[i as int], pred);
                assert(lists@.subrange(0, i + 1) =~= lists@.subrange(0, i as int).push(
                    lists@[i as int],
                ));
            }
            if lists[i].board == board_id && lists[i].board_type == board_type {
                out.push(lists[i].clone());
            }
            i += 1;
        }
        proof {
            assert(lists@.subrange(0, lists@.len() as int) =~= lists@);
        }
        out
    }
}

} // verus!
