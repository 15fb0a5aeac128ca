use cteepbd::balance::{Balance, BalanceTotal};
use cteepbd::components::{Component, Components};
use cteepbd::cte::render::{balance_to_plain, balance_to_xml, values_to_text};
use cteepbd::decimal::{push_rounded_1, push_rounded_2};
use cteepbd::meta::Meta;
use cteepbd::rennren::RenNren;
use cteepbd::types::{CSubtype, CType, Carrier, Dest, Service, Source, Step};
use cteepbd::wfactors::{Factor, Factors};

fn meta(key: &str, value: &str) -> Meta {
    Meta { key: key.to_string(), value: value.to_string() }
}

fn balance(ren: i64, nren: i64) -> Balance {
    Balance {
        components: Components { cmeta: Vec::new(), cdata: Vec::new() },
        wfactors: Factors { wmeta: Vec::new(), wdata: Vec::new() },
        k_exp: 1000,
        arearef: 217_400,
        balance: BalanceTotal { A: RenNren::new(0, 0), B: RenNren::new(0, 0) },
        balance_m2: BalanceTotal { A: RenNren::new(1, 2), B: RenNren::new(ren, nren) },
    }
}

fn two(v: i128) -> String {
    let mut s = String::new();
    push_rounded_2(&mut s, v);
    s
}

fn one(v: i128) -> String {
    let mut s = String::new();
    push_rounded_1(&mut s, v);
    s
}

#[test]
fn thousandths_are_rounded_to_two_decimals() {
    assert_eq!("0.00", two(0));
    assert_eq!("0.00", two(4));
    assert_eq!("0.00", two(5));
    assert_eq!("0.01", two(6));
    assert_eq!("0.02", two(15));
    assert_eq!("0.02", two(25));
    assert_eq!("217.40", two(217_400));
    assert_eq!("9.67", two(9_670));
    assert_eq!("1.00", two(999));
    assert_eq!("-0.01", two(-6));
    assert_eq!("0.00", two(-5));
    assert_eq!("-0.02", two(-15));
    assert_eq!("-12.35", two(-12_346));
}

#[test]
fn thousandths_are_rounded_to_one_decimal() {
    assert_eq!("0.0", one(0));
    assert_eq!("0.0", one(49));
    assert_eq!("0.0", one(50));
    assert_eq!("0.1", one(51));
    assert_eq!("0.2", one(150));
    assert_eq!("0.2", one(250));
    assert_eq!("178.9", one(178_880));
    assert_eq!("37.1", one(37_140));
    assert_eq!("-80.0", one(-80_000));
    assert_eq!("-78.2", one(-78_249));
    assert_eq!("0.0", one(-50));
    assert_eq!("-0.2", one(-150));
    assert_eq!("10.0", one(9_950));
}

#[test]
fn the_widest_numbers_are_written_in_full() {
    assert_eq!("170141183460469231731687303715884105.7", one(i128::MAX));
    assert_eq!("-170141183460469231731687303715884105.7", one(i128::MIN));
    assert_eq!("-170141183460469231731687303715884105.73", two(i128::MIN));
}

#[test]
fn series_are_written_with_two_decimals() {
    assert_eq!("", values_to_text(&vec![], ", "));
    assert_eq!("1.00", values_to_text(&vec![1000], ", "));
    assert_eq!("1.00, 2.50, -0.13", values_to_text(&vec![1000, 2500, -126], ", "));
    assert_eq!("1.00,2.50", values_to_text(&vec![1000, 2500], ","));
}

#[test]
fn a_balance_is_written_in_plain_text() {
    assert_eq!(
        "Area_ref = 217.40 [m2]
k_exp = 1.00
C_ep [kWh/m2.an]: ren = 2.2, nren = 38.4, tot = 40.6, RER = 0.05",
        balance_to_plain(&balance(2_200, 38_400))
    );
    assert_eq!(
        "Area_ref = 217.40 [m2]
k_exp = 1.00
C_ep [kWh/m2.an]: ren = 120.0, nren = -80.0, tot = 40.0, RER = 3.00",
        balance_to_plain(&balance(120_000, -80_000))
    );
    assert_eq!(
        "Area_ref = 217.40 [m2]
k_exp = 1.00
C_ep [kWh/m2.an]: ren = 0.0, nren = 0.0, tot = 0.0, RER = 0.00",
        balance_to_plain(&balance(0, 0))
    );
    assert_eq!(
        "Area_ref = 217.40 [m2]
k_exp = 1.00
C_ep [kWh/m2.an]: ren = 9223372036854775.8, nren = 9223372036854775.8, tot = 18446744073709551.6, RER = 0.50",
        balance_to_plain(&balance(i64::MAX, i64::MAX))
    );
}

#[test]
fn a_balance_without_data_is_written_as_xml() {
    assert_eq!(
        "<BalanceEPB>
    <FactoresDePaso>
        <Metadatos>
    
        </Metadatos>
        <Datos>
    
        </Datos>
    </FactoresDePaso>
    <Componentes>
        <Metadatos>
    
        </Metadatos>
        <Datos>
    
        </Datos>
    </Componentes>
    <kexp>1.00</kexp>
    <AreaRef>217.40</AreaRef><!-- área de referencia [m2] -->
    <Epm2><!-- ep [kWh/m2.a] -->
        <tot>40.6</tot>
        <nren>38.4</nren>
    </Epm2>
</BalanceEPB>",
        balance_to_xml(&balance(2_200, 38_400))
    );
}

#[test]
fn a_balance_with_data_is_written_as_xml() {
    let mut b = balance(178_880, 37_140);
    b.k_exp = 0;
    b.arearef = 1_000;
    b.wfactors.wmeta = vec![meta("CTE_COGEN", "0.000, 2.500"), meta("CTE_FUENTE", "a<b")];
    b.wfactors.wdata = vec![
        Factor::new(
            Carrier::ELECTRICIDAD,
            Source::RED,
            Dest::SUMINISTRO,
            Step::A,
            414,
            1954,
            "Recursos \"red\" & más".to_string(),
        ),
        Factor::new(Carrier::MEDIOAMBIENTE, Source::INSITU, Dest::A_NEPB, Step::B, 1000, 0, String::new()),
    ];
    b.components.cmeta = vec![meta("CTE_PERIMETRO", "NEARBY")];
    b.components.cdata = vec![
        Component {
            carrier: Carrier::ELECTRICIDAD,
            ctype: CType::CONSUMO,
            csubtype: CSubtype::EPB,
            service: Service::ACS,
            values: vec![9_670, 7_740, 4_845],
            comment: "uno".to_string(),
        },
        Component {
            carrier: Carrier::MEDIOAMBIENTE,
            ctype: CType::PRODUCCION,
            csubtype: CSubtype::INSITU,
            service: Service::NDEF,
            values: vec![],
            comment: String::new(),
        },
    ];
    assert_eq!(
        "<BalanceEPB>
    <FactoresDePaso>
        <Metadatos>
          <Metadato><Clave>CTE_COGEN</Clave><Valor>0.000, 2.500</Valor></Metadato>
      <Metadato><Clave>CTE_FUENTE</Clave><Valor>a&lt;b</Valor></Metadato>
        </Metadatos>
        <Datos>
          <Dato><Vector>ELECTRICIDAD</Vector><Origen>RED</Origen><Destino>SUMINISTRO</Destino><Paso>A</Paso><ren>0.414</ren><nren>1.954</nren><Comentario>Recursos &quot;red&quot; &amp; más</Comentario></Dato>
      <Dato><Vector>MEDIOAMBIENTE</Vector><Origen>INSITU</Origen><Destino>A_NEPB</Destino><Paso>B</Paso><ren>1.000</ren><nren>0.000</nren><Comentario></Comentario></Dato>
        </Datos>
    </FactoresDePaso>
    <Componentes>
        <Metadatos>
          <Metadato><Clave>CTE_PERIMETRO</Clave><Valor>NEARBY</Valor></Metadato>
        </Metadatos>
        <Datos>
          <Dato>
            <Vector>ELECTRICIDAD</Vector><Tipo>CONSUMO</Tipo><Subtipo>EPB</Subtipo><Servicio>ACS</Servicio>
            <Valores>9.67,7.74,4.84</Valores>
            <Comentario>uno</Comentario>
        </Dato>
      <Dato>
            <Vector>MEDIOAMBIENTE</Vector><Tipo>PRODUCCION</Tipo><Subtipo>INSITU</Subtipo><Servicio>NDEF</Servicio>
            <Valores></Valores>
            <Comentario></Comentario>
        </Dato>
        </Datos>
    </Componentes>
    <kexp>0.00</kexp>
    <AreaRef>1.00</AreaRef><!-- área de referencia [m2] -->
    <Epm2><!-- ep [kWh/m2.a] -->
        <tot>216.0</tot>
        <nren>37.1</nren>
    </Epm2>
</BalanceEPB>",
        balance_to_xml(&b)
    );
}
