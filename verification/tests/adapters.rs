use hero_call::disclosure::DisclosureSecurity;
use hero_call::events::{EventAdapterError, EventDataAdapter, EventInput, EventSource};
use hero_call::news::{
    NewsAdapterError, NewsArticleInput, NewsDataAdapter, NewsDataSource, NewsSourceType,
};

#[test]
fn event_adapter_port_requires_explicit_records_without_network_access() {
    struct RecordedAdapter;
    impl EventDataAdapter for RecordedAdapter {
        fn source(&self) -> EventSource {
            EventSource { name: "Recorded event adapter".into() }
        }

        fn fetch_events(
            &self,
            _securities: &[DisclosureSecurity],
        ) -> Result<Vec<EventInput>, EventAdapterError> {
            Ok(Vec::new())
        }
    }

    let adapter = RecordedAdapter;
    assert_eq!(adapter.source().name, "Recorded event adapter");
    assert!(adapter.fetch_events(&[]).expect("recorded adapter").is_empty());
}

#[test]
fn news_adapter_port_preserves_source_category_without_network_access() {
    struct RecordedAdapter;
    impl NewsDataAdapter for RecordedAdapter {
        fn source(&self) -> NewsDataSource {
            NewsDataSource {
                name: "Recorded official adapter".into(),
                source_type: NewsSourceType::Official,
            }
        }

        fn fetch_articles(
            &self,
            _securities: &[DisclosureSecurity],
        ) -> Result<Vec<NewsArticleInput>, NewsAdapterError> {
            Ok(Vec::new())
        }
    }

    let adapter = RecordedAdapter;
    assert_eq!(adapter.source().source_type, NewsSourceType::Official);
    assert!(adapter.fetch_articles(&[]).expect("recorded adapter").is_empty());
}
