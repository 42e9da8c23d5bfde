use fen4::{Extra, MetaDataParseError, NumberParseError, Position, PositionParseError};

fn square(name: &str) -> Position {
    name.parse().unwrap()
}

#[test]
fn default_options_are_written_as_nothing() {
    let extra = Extra::default();
    assert!(extra.is_default());
    assert_eq!(extra.to_string().unwrap(), "");
    assert_eq!(extra.pawnbaserank, 2);
    assert_eq!(extra.uniquify, 0);
    assert_eq!(extra.lives, None);
    assert_eq!(extra.game_over, "");
}

#[test]
fn empty_block_is_refused() {
    assert_eq!("{}".parse::<Extra>(), Err(MetaDataParseError::BadCurly));
}

#[test]
fn block_without_braces_is_refused() {
    assert_eq!("".parse::<Extra>(), Err(MetaDataParseError::BadCurly));
    assert_eq!("{".parse::<Extra>(), Err(MetaDataParseError::BadCurly));
    assert_eq!(
        "'std2pc':true}".parse::<Extra>(),
        Err(MetaDataParseError::BadCurly)
    );
    assert_eq!(
        "{'std2pc':true".parse::<Extra>(),
        Err(MetaDataParseError::BadCurly)
    );
}

#[test]
fn repeated_tag_is_refused() {
    assert_eq!(
        "{'lives':(1,2,3,4),'lives':(1,2,3,4)}".parse::<Extra>(),
        Err(MetaDataParseError::RepeatedTag)
    );
    assert_eq!(
        "{'pawnsBaseRank':3,'pawnsBaseRank':4}".parse::<Extra>(),
        Err(MetaDataParseError::RepeatedTag)
    );
    assert_eq!(
        "{'resigned':(false,false,false,false),'resigned':(true,false,false,false)}"
            .parse::<Extra>(),
        Err(MetaDataParseError::RepeatedTag)
    );
    assert_eq!(
        "{'std2pc':true,'uniquify':5,'std2pc':false}".parse::<Extra>(),
        Err(MetaDataParseError::RepeatedTag)
    );
}

#[test]
fn repeated_tag_under_its_older_name_is_refused() {
    assert_eq!(
        "{'royal':('a4','','',''),'kingSquares':('a4','','','')}".parse::<Extra>(),
        Err(MetaDataParseError::RepeatedTag)
    );
    assert_eq!(
        "{'pawnBaseRank':3,'pawnsBaseRank':3}".parse::<Extra>(),
        Err(MetaDataParseError::RepeatedTag)
    );
}

#[test]
fn repeated_tag_is_reported_before_its_value_is_read() {
    assert_eq!(
        "{'lives':(1,2,3,4),'lives':nonsense}".parse::<Extra>(),
        Err(MetaDataParseError::RepeatedTag)
    );
}

#[test]
fn unknown_tag_is_refused_with_its_label() {
    assert_eq!(
        "{'bogus':1}".parse::<Extra>(),
        Err(MetaDataParseError::UnknownTag(String::from("bogus")))
    );
    assert_eq!(
        "{'std2pc':true,'Royal':('a4','','','')}".parse::<Extra>(),
        Err(MetaDataParseError::UnknownTag(String::from("Royal")))
    );
    assert_eq!(
        "{'':1}".parse::<Extra>(),
        Err(MetaDataParseError::UnknownTag(String::new()))
    );
}

#[test]
fn every_tag_is_read() {
    let extra: Extra = "{'royal':('a4','b5','','n14'),'lives':(9,6,4,0),\
'resigned':(true,true,false,false),'flagged':(false,true,false,false),\
'stalemated':(false,false,true,false),'zombieImmune':(true,false,false,true),\
'zombieType':('','','','muncher'),'enPassant':('j3:j4','','',''),\
'pawnsBaseRank':8,'uniquify':94403,'std2pc':true,'gameOver':'Red wins'}"
        .parse()
        .unwrap();
    assert_eq!(
        extra.royal,
        [
            Some(square("a4")),
            Some(square("b5")),
            None,
            Some(square("n14"))
        ]
    );
    assert_eq!(extra.lives, Some([9, 6, 4, 0]));
    assert_eq!(extra.resigned, [true, true, false, false]);
    assert_eq!(extra.flagged, [false, true, false, false]);
    assert_eq!(extra.stalemated, [false, false, true, false]);
    assert_eq!(extra.zombie_immune, [true, false, false, true]);
    assert_eq!(
        extra.zombie_type,
        [
            String::new(),
            String::new(),
            String::new(),
            String::from("muncher")
        ]
    );
    assert_eq!(
        extra.enpassant,
        [Some((square("j3"), square("j4"))), None, None, None]
    );
    assert_eq!(extra.pawnbaserank, 8);
    assert_eq!(extra.uniquify, 94403);
    assert!(extra.std2pc);
    assert_eq!(extra.game_over, "Red wins");
    assert!(!extra.is_default());
}

#[test]
fn every_tag_is_written_in_the_fixed_order() {
    let text = "'royal':('a4','b5','','n14'),'lives':(9,6,4,0),\
'resigned':(true,true,false,false),'flagged':(false,true,false,false),\
'stalemated':(false,false,true,false),'zombieImmune':(true,false,false,true),\
'zombieType':('','','','muncher'),'enPassant':('j3:j4','','',''),\
'pawnsBaseRank':8,'uniquify':94403,'std2pc':true,'gameOver':'Red wins'";
    let extra: Extra = format!("{{{}}}", text).parse().unwrap();
    assert_eq!(extra.to_string().unwrap(), text);
}

#[test]
fn tags_are_read_in_any_order_and_written_in_one() {
    let extra: Extra = "{'std2pc':true,'uniquify':94403,'royal':('a4','','','n14')}"
        .parse()
        .unwrap();
    assert_eq!(
        extra.to_string().unwrap(),
        "'royal':('a4','','','n14'),'uniquify':94403,'std2pc':true"
    );
    let other: Extra = "{'uniquify':94403,'royal':('a4','','','n14'),'std2pc':true}"
        .parse()
        .unwrap();
    assert_eq!(extra, other);
}

#[test]
fn values_at_their_default_are_not_written() {
    let extra: Extra = "{'pawnsBaseRank':2,'uniquify':0,'std2pc':false,'gameOver':'',\
'royal':('','','',''),'resigned':(false,false,false,false)}"
        .parse()
        .unwrap();
    assert!(extra.is_default());
    assert_eq!(extra, Extra::default());
    assert_eq!(extra.to_string().unwrap(), "");
    let lives: Extra = "{'lives':(0,0,0,0),'pawnsBaseRank':2}".parse().unwrap();
    assert_eq!(lives.to_string().unwrap(), "'lives':(0,0,0,0)");
}

#[test]
fn uniquify_and_std2pc_are_parted_by_a_comma() {
    let extra: Extra = "{'uniquify':5,'std2pc':true}".parse().unwrap();
    assert_eq!(extra.to_string().unwrap(), "'uniquify':5,'std2pc':true");
}

#[test]
fn older_names_of_tags_are_read() {
    let extra: Extra = "{'kingSquares':('a4','','',''),'pawnBaseRank':7}"
        .parse()
        .unwrap();
    assert_eq!(extra.royal, [Some(square("a4")), None, None, None]);
    assert_eq!(extra.pawnbaserank, 7);
    assert_eq!(
        extra.to_string().unwrap(),
        "'royal':('a4','','',''),'pawnsBaseRank':7"
    );
}

#[test]
fn null_is_read_as_false_in_a_quadruple() {
    let extra: Extra = "{'flagged':(null,true,null,false)}".parse().unwrap();
    assert_eq!(extra.flagged, [false, true, false, false]);
    assert_eq!(
        "{'std2pc':null}".parse::<Extra>(),
        Err(MetaDataParseError::BadBoolean)
    );
}

#[test]
fn options_read_back_as_they_were_written() {
    let mut extra = Extra::default();
    extra.royal[2] = Some(Position { row: 13, col: 0 });
    extra.lives = Some([3, 0, usize::MAX, 1]);
    extra.zombie_immune = [false, false, false, true];
    extra.zombie_type[1] = String::from("ranter's (old");
    extra.enpassant[3] = Some((Position { row: 8, col: 11 }, Position { row: 8, col: 10 }));
    extra.game_over = String::from("Blue: resigned (1)");
    let text = extra.to_string().unwrap();
    let back: Extra = format!("{{{}}}", text).parse().unwrap();
    assert_eq!(back, extra);
}

#[test]
fn options_with_a_square_off_the_board_are_not_written() {
    let mut extra = Extra::default();
    extra.royal[0] = Some(Position { row: 14, col: 0 });
    assert_eq!(extra.to_string(), None);
    let mut extra = Extra::default();
    extra.enpassant[1] = Some((Position { row: 0, col: 0 }, Position { row: 0, col: 20 }));
    assert_eq!(extra.to_string(), None);
    let mut extra = Extra::default();
    extra.std2pc = true;
    extra.enpassant[3] = Some((Position { row: 30, col: 0 }, Position { row: 0, col: 0 }));
    assert_eq!(extra.to_string(), None);
}

#[test]
fn label_without_quotes_is_refused() {
    assert_eq!(
        "{royal:('a4','','','')}".parse::<Extra>(),
        Err(MetaDataParseError::BadQuote)
    );
    assert_eq!(
        "{'royal:('a4','','','')}".parse::<Extra>(),
        Err(MetaDataParseError::BadQuote)
    );
    assert_eq!("{':1}".parse::<Extra>(), Err(MetaDataParseError::BadQuote));
    assert_eq!(
        "{'zombieType':('a',b,'c','d')}".parse::<Extra>(),
        Err(MetaDataParseError::BadQuote)
    );
    assert_eq!(
        "{'gameOver':over}".parse::<Extra>(),
        Err(MetaDataParseError::BadQuote)
    );
}

#[test]
fn entry_without_colon_is_refused() {
    assert_eq!(
        "{'royal'}".parse::<Extra>(),
        Err(MetaDataParseError::BadColon)
    );
    assert_eq!("{x}".parse::<Extra>(), Err(MetaDataParseError::BadColon));
    assert_eq!(
        "{'std2pc':true,}".parse::<Extra>(),
        Err(MetaDataParseError::BadColon)
    );
    assert_eq!(
        "{'std2pc':true,garbage}".parse::<Extra>(),
        Err(MetaDataParseError::BadColon)
    );
}

#[test]
fn en_passant_without_one_colon_is_refused() {
    assert_eq!(
        "{'enPassant':('j3','','','')}".parse::<Extra>(),
        Err(MetaDataParseError::BadColon)
    );
    assert_eq!(
        "{'enPassant':('j3:j4:j5','','','')}".parse::<Extra>(),
        Err(MetaDataParseError::BadColon)
    );
}

#[test]
fn quadruple_without_parentheses_is_refused() {
    assert_eq!(
        "{'lives':(1,2,3,4}".parse::<Extra>(),
        Err(MetaDataParseError::BadParen)
    );
    assert_eq!(
        "{'lives':1,2,3,4}".parse::<Extra>(),
        Err(MetaDataParseError::BadParen)
    );
    assert_eq!(
        "{'resigned':true}".parse::<Extra>(),
        Err(MetaDataParseError::BadParen)
    );
}

#[test]
fn quadruple_of_wrong_size_is_refused() {
    assert_eq!(
        "{'lives':(1,2,3)}".parse::<Extra>(),
        Err(MetaDataParseError::BadComma)
    );
    assert_eq!(
        "{'lives':(1,2,3,4,5)}".parse::<Extra>(),
        Err(MetaDataParseError::BadComma)
    );
    assert_eq!(
        "{'lives':()}".parse::<Extra>(),
        Err(MetaDataParseError::BadComma)
    );
}

#[test]
fn text_behind_a_value_is_refused() {
    assert_eq!(
        "{'lives':(1,2,3,4)x}".parse::<Extra>(),
        Err(MetaDataParseError::BadComma)
    );
    assert_eq!(
        "{'lives':(1,2,3,4)}}".parse::<Extra>(),
        Err(MetaDataParseError::BadComma)
    );
}

#[test]
fn bad_truth_value_is_refused() {
    assert_eq!(
        "{'std2pc':yes}".parse::<Extra>(),
        Err(MetaDataParseError::BadBoolean)
    );
    assert_eq!(
        "{'resigned':(true,false,maybe,false)}".parse::<Extra>(),
        Err(MetaDataParseError::BadBoolean)
    );
    assert_eq!(
        "{'flagged':(True,false,false,false)}".parse::<Extra>(),
        Err(MetaDataParseError::BadBoolean)
    );
}

#[test]
fn bad_square_is_refused() {
    assert_eq!(
        "{'royal':('z9','','','')}".parse::<Extra>(),
        Err(MetaDataParseError::BadPosition(
            PositionParseError::ColumnInvalid('z')
        ))
    );
    assert_eq!(
        "{'royal':('a4','a15','','')}".parse::<Extra>(),
        Err(MetaDataParseError::BadPosition(
            PositionParseError::RowInvalid(15)
        ))
    );
    assert_eq!(
        "{'enPassant':('j3:j','','','')}".parse::<Extra>(),
        Err(MetaDataParseError::BadPosition(PositionParseError::BadSize(
            1
        )))
    );
}

#[test]
fn bad_number_is_refused() {
    assert_eq!(
        "{'uniquify':x}".parse::<Extra>(),
        Err(MetaDataParseError::BadNumber(
            NumberParseError::InvalidDigit
        ))
    );
    assert_eq!(
        "{'uniquify':}".parse::<Extra>(),
        Err(MetaDataParseError::BadNumber(NumberParseError::Empty))
    );
    assert_eq!(
        "{'pawnsBaseRank':99999999999999999999999999}".parse::<Extra>(),
        Err(MetaDataParseError::BadNumber(
            NumberParseError::PosOverflow
        ))
    );
    assert_eq!(
        "{'lives':(1,2,three,4)}".parse::<Extra>(),
        Err(MetaDataParseError::BadNumber(
            NumberParseError::InvalidDigit
        ))
    );
}

#[test]
fn first_fault_of_a_block_is_reported() {
    assert_eq!(
        "{'lives':(x,1,1,1),'lives':(1,1,1,1)}".parse::<Extra>(),
        Err(MetaDataParseError::BadNumber(
            NumberParseError::InvalidDigit
        ))
    );
    assert_eq!(
        "{'bogus':(1,2}".parse::<Extra>(),
        Err(MetaDataParseError::BadParen)
    );
}
